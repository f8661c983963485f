use neo_reviewer::github::types::{AuthStatus, CommentResponse, FileStatus, PrRef};

#[test]
fn added() {
    assert_eq!(FileStatus::from("added"), FileStatus::Added);
    assert_eq!(FileStatus::from("ADDED"), FileStatus::Added);
    assert_eq!(FileStatus::from("Added"), FileStatus::Added);
}

#[test]
fn deleted() {
    assert_eq!(FileStatus::from("deleted"), FileStatus::Deleted);
    assert_eq!(FileStatus::from("removed"), FileStatus::Deleted);
    assert_eq!(FileStatus::from("REMOVED"), FileStatus::Deleted);
}

#[test]
fn renamed() {
    assert_eq!(FileStatus::from("renamed"), FileStatus::Renamed);
    assert_eq!(FileStatus::from("RENAMED"), FileStatus::Renamed);
}

#[test]
fn modified_explicit() {
    assert_eq!(FileStatus::from("modified"), FileStatus::Modified);
    assert_eq!(FileStatus::from("MODIFIED"), FileStatus::Modified);
}

#[test]
fn modified_fallback() {
    assert_eq!(FileStatus::from("changed"), FileStatus::Modified);
    assert_eq!(FileStatus::from("unknown"), FileStatus::Modified);
    assert_eq!(FileStatus::from(""), FileStatus::Modified);
}

#[test]
fn formats_correctly() {
    let pr_ref = PrRef {
        owner: "octocat".to_string(),
        repo: "hello-world".to_string(),
        number: 42,
    };
    assert_eq!(pr_ref.url(), "https://github.com/octocat/hello-world/pull/42");
}

#[test]
fn handles_special_chars_in_names() {
    let pr_ref = PrRef {
        owner: "my-org".to_string(),
        repo: "my_repo.nvim".to_string(),
        number: 1,
    };
    assert_eq!(pr_ref.url(), "https://github.com/my-org/my_repo.nvim/pull/1");
}

#[test]
fn auth_status_describes_authenticated() {
    let a = AuthStatus::Authenticated {
        username: "octocat".to_string(),
        source: "GITHUB_TOKEN".to_string(),
    };
    assert_eq!(a.describe(), "Authenticated as octocat (via GITHUB_TOKEN)");
}

#[test]
fn auth_status_describes_missing_and_invalid_tokens() {
    let missing = AuthStatus::NoToken { error: "no token found".to_string() };
    assert_eq!(missing.describe(), "No token: no token found");
    let invalid = AuthStatus::InvalidToken { error: "expired".to_string() };
    assert_eq!(invalid.describe(), "Invalid token: expired");
}

#[test]
fn comment_response_success_envelope() {
    let r = CommentResponse::succeeded(7, Some("https://example.invalid/c/7".to_string()));
    assert!(r.success);
    assert_eq!(r.comment_id, Some(7));
    assert_eq!(r.html_url, Some("https://example.invalid/c/7".to_string()));
    assert_eq!(r.error, None);
}

#[test]
fn comment_response_failure_envelope() {
    let r = CommentResponse::failed("boom".to_string());
    assert!(!r.success);
    assert_eq!(r.comment_id, None);
    assert_eq!(r.html_url, None);
    assert_eq!(r.error, Some("boom".to_string()));
}
