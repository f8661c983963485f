use neo_reviewer::localdiff::{
    build_git_diff_args, build_pr_diff_target, get_untracked_review_files, parse_local_diff_mode,
    resolve_local_diff_target, should_include_untracked, LocalDiffError, LocalDiffMode,
};

#[test]
fn test_build_git_diff_args_with_ignore_whitespace() {
    let args = build_git_diff_args(Some("HEAD"), true, LocalDiffMode::All);
    assert_eq!(args, vec!["diff", "-w", "HEAD"]);
}

#[test]
fn test_build_git_diff_args_without_ignore_whitespace() {
    let args = build_git_diff_args(Some("HEAD"), false, LocalDiffMode::All);
    assert_eq!(args, vec!["diff", "HEAD"]);
}

#[test]
fn test_build_git_diff_args_cached_mode() {
    let args = build_git_diff_args(Some("main"), true, LocalDiffMode::CachedOnly);
    assert_eq!(args, vec!["diff", "-w", "--cached", "main"]);
}

#[test]
fn test_build_git_diff_args_uncached_mode_has_no_target() {
    let args = build_git_diff_args(None, true, LocalDiffMode::UncachedOnly);
    assert_eq!(args, vec!["diff", "-w"]);
}

#[test]
fn test_parse_local_diff_mode_conflict_errors() {
    let result = parse_local_diff_mode(true, true);
    assert!(result.is_err());
}

#[test]
fn test_parse_local_diff_mode_picks_single_flag() {
    assert_eq!(parse_local_diff_mode(true, false), Ok(LocalDiffMode::CachedOnly));
    assert_eq!(parse_local_diff_mode(false, true), Ok(LocalDiffMode::UncachedOnly));
    assert_eq!(parse_local_diff_mode(false, false), Ok(LocalDiffMode::All));
}

#[test]
fn test_resolve_local_diff_target_defaults_to_head() {
    let target = resolve_local_diff_target(None, LocalDiffMode::All, false).unwrap();
    assert_eq!(target, Some("HEAD".to_string()));
}

#[test]
fn test_resolve_local_diff_target_errors_for_uncached_with_target() {
    let result = resolve_local_diff_target(Some("main"), LocalDiffMode::UncachedOnly, false);
    assert!(result.is_err());
}

#[test]
fn test_resolve_local_diff_target_errors_for_uncached_with_merge_base() {
    let result = resolve_local_diff_target(None, LocalDiffMode::UncachedOnly, true);
    assert_eq!(result, Err(LocalDiffError::MergeBaseWithUncachedOnly));
}

#[test]
fn test_should_include_untracked_defaults_to_true() {
    assert!(should_include_untracked(LocalDiffMode::All, false));
    assert!(should_include_untracked(LocalDiffMode::UncachedOnly, false));
}

#[test]
fn test_should_include_untracked_false_when_disabled_or_cached_only() {
    assert!(!should_include_untracked(LocalDiffMode::All, true));
    assert!(!should_include_untracked(LocalDiffMode::CachedOnly, false));
}

#[test]
fn test_build_pr_diff_target_uses_three_dot_notation() {
    let target = build_pr_diff_target("base123", "head456");
    assert_eq!(target, "base123...head456");
}

#[test]
fn test_local_diff_error_messages() {
    assert_eq!(
        LocalDiffError::ConflictingModes.message(),
        "Cannot combine --cached-only and --uncached-only for local diff"
    );
    assert_eq!(
        LocalDiffError::TargetWithUncachedOnly.message(),
        "Cannot use a revision target with --uncached-only (use --cached-only or default mode)"
    );
    assert_eq!(
        LocalDiffError::MergeBaseWithUncachedOnly.message(),
        "Cannot use --merge-base with --uncached-only (requires a revision target)"
    );
}

#[test]
fn test_untracked_review_files_concatenate_in_order() {
    let patch_one = "diff --git a/one.txt b/one.txt\n@@ -0,0 +1,1 @@\n+hello".to_string();
    let patch_two = "diff --git a/two.txt b/two.txt\n@@ -0,0 +1,1 @@\n+world".to_string();
    let patches = vec![patch_one, String::new(), patch_two];
    let files = get_untracked_review_files(&patches);
    assert_eq!(files.len(), 2);
    assert_eq!(files[0].path, "one.txt");
    assert_eq!(files[1].path, "two.txt");
}
