use neo_reviewer::github::urls::{find_repo_remote, parse_pr_url, remote_points_to_repo};

#[test]
fn valid_url() {
    let result = parse_pr_url("https://github.com/owner/repo/pull/123");
    assert!(result.is_ok());
    let pr_ref = result.unwrap();
    assert_eq!(pr_ref.owner, "owner");
    assert_eq!(pr_ref.repo, "repo");
    assert_eq!(pr_ref.number, 123);
}

#[test]
fn valid_url_with_trailing_slash() {
    let result = parse_pr_url("https://github.com/owner/repo/pull/123/");
    assert!(result.is_ok());
    let pr_ref = result.unwrap();
    assert_eq!(pr_ref.number, 123);
}

#[test]
fn valid_url_with_query_params() {
    let result = parse_pr_url("https://github.com/owner/repo/pull/456?tab=files");
    assert!(result.is_ok());
    let pr_ref = result.unwrap();
    assert_eq!(pr_ref.number, 456);
}

#[test]
fn valid_url_with_fragment() {
    let result = parse_pr_url("https://github.com/owner/repo/pull/789#issuecomment-123");
    assert!(result.is_ok());
    let pr_ref = result.unwrap();
    assert_eq!(pr_ref.number, 789);
}

#[test]
fn valid_url_http() {
    let result = parse_pr_url("http://github.com/owner/repo/pull/42");
    assert!(result.is_ok());
}

#[test]
fn valid_url_with_hyphens_and_underscores() {
    let result = parse_pr_url("https://github.com/my-org/my_repo/pull/100");
    assert!(result.is_ok());
    let pr_ref = result.unwrap();
    assert_eq!(pr_ref.owner, "my-org");
    assert_eq!(pr_ref.repo, "my_repo");
}

#[test]
fn invalid_url_not_github() {
    let result = parse_pr_url("https://gitlab.com/owner/repo/pull/123");
    assert!(result.is_err());
}

#[test]
fn invalid_url_not_pr() {
    let result = parse_pr_url("https://github.com/owner/repo/issues/123");
    assert!(result.is_err());
}

#[test]
fn invalid_url_missing_number() {
    let result = parse_pr_url("https://github.com/owner/repo/pull/");
    assert!(result.is_err());
}

#[test]
fn invalid_url_non_numeric_pr() {
    let result = parse_pr_url("https://github.com/owner/repo/pull/abc");
    assert!(result.is_err());
}

#[test]
fn invalid_url_empty() {
    let result = parse_pr_url("");
    assert!(result.is_err());
}

#[test]
fn invalid_url_random_string() {
    let result = parse_pr_url("not a url at all");
    assert!(result.is_err());
}

#[test]
fn invalid_url_number_too_large() {
    let result = parse_pr_url("https://github.com/owner/repo/pull/99999999999999999999999");
    assert!(result.is_err());
}

#[test]
fn invalid_url_error_message_names_the_url() {
    let result = parse_pr_url("not a url at all");
    assert_eq!(result.unwrap_err(), "Invalid GitHub PR URL: not a url at all");
}

#[test]
fn remote_points_to_repo_matches_https_url() {
    assert!(remote_points_to_repo("https://github.com/owner/repo.git", "owner", "repo"));
}

#[test]
fn remote_points_to_repo_matches_ssh_url() {
    assert!(remote_points_to_repo("git@github.com:owner/repo.git", "owner", "repo"));
}

#[test]
fn remote_points_to_repo_rejects_non_matching_repo() {
    assert!(!remote_points_to_repo("https://github.com/owner/other.git", "owner", "repo"));
}

#[test]
fn remote_points_to_repo_rejects_non_github_url() {
    assert!(!remote_points_to_repo("https://gitlab.com/owner/repo.git", "owner", "repo"));
}

#[test]
fn remote_points_to_repo_accepts_url_without_git_suffix() {
    assert!(remote_points_to_repo("https://github.com/owner/repo", "owner", "repo"));
}

#[test]
fn find_repo_remote_picks_first_matching_fetch_line() {
    let lines = vec![
        String::from("upstream\thttps://github.com/other/repo.git (fetch)"),
        String::from("upstream\thttps://github.com/other/repo.git (push)"),
        String::from("origin\tgit@github.com:owner/repo.git (fetch)"),
        String::from("origin\tgit@github.com:owner/repo.git (push)"),
    ];
    let found = find_repo_remote(&lines, "owner", "repo");
    assert_eq!(found, Some(String::from("origin")));
}

#[test]
fn find_repo_remote_returns_none_without_match() {
    let lines = vec![String::from("origin\thttps://gitlab.com/owner/repo.git (fetch)")];
    assert_eq!(find_repo_remote(&lines, "owner", "repo"), None);
}
