//! Data types exchanged with the code-hosting side of the tool: pull-request
//! references and metadata, per-file review results, review comments, and the
//! response envelopes the front-end consumes.

use vstd::prelude::*;
use vstd::string::StrSliceExecFns;
use vstd::string::StringExecFns;

use crate::diff::types::{ChangeBlock, ChangeBlockView};
use crate::text::{chars_eq, dec_digits, lower, str_chars, to_lower_chars, u64_to_string};

verus! {

/// Parsed pull-request URL components.
#[derive(Debug, Clone, PartialEq)]
pub struct PrRef {
    pub owner: String,
    pub repo: String,
    pub number: u64,
}

/// The canonical web address of the pull request `number` under
/// `owner`/`repo`.
pub open spec fn spec_pr_url(owner: Seq<char>, repo: Seq<char>, number: int) -> Seq<char> {
    "https://github.com/"@ + owner + "/"@ + repo + "/pull/"@ + dec_digits(number)
}

impl PrRef {
    /// The canonical web address of this pull request.
    pub fn url(&self) -> (r: String)
        ensures
            r@ == spec_pr_url(self.owner@, self.repo@, self.number as int),
    {
        let mut s = String::from_str("https://github.com/");
        s.append(self.owner.as_str());
        s.append("/");
        s.append(self.repo.as_str());
        s.append("/pull/");
        let num = u64_to_string(self.number);
        s.append(num.as_str());
        proof {
            assert(s@ =~= spec_pr_url(self.owner@, self.repo@, self.number as int));
        }
        s
    }
}

/// Pull-request metadata.
#[derive(Debug, Clone, PartialEq)]
pub struct PullRequest {
    pub number: u64,
    pub title: String,
    pub description: Option<String>,
    pub url: String,
    pub base_sha: String,
    pub head_sha: String,
    pub base_ref: String,
    pub head_ref: String,
    pub author: String,
    pub state: String,
}

/// File change status.
#[derive(Debug, Clone, Copy, PartialEq, Eq, Structural)]
pub enum FileStatus {
    Added,
    Modified,
    Deleted,
    Renamed,
}

pub open spec fn added_word() -> Seq<char> {
    seq!['a', 'd', 'd', 'e', 'd']
}

pub open spec fn removed_word() -> Seq<char> {
    seq!['r', 'e', 'm', 'o', 'v', 'e', 'd']
}

pub open spec fn deleted_word() -> Seq<char> {
    seq!['d', 'e', 'l', 'e', 't', 'e', 'd']
}

pub open spec fn renamed_word() -> Seq<char> {
    seq!['r', 'e', 'n', 'a', 'm', 'e', 'd']
}

/// The status a label denotes, compared after ASCII-lowercase folding;
/// anything unrecognized is `Modified`.
pub open spec fn spec_file_status(s: Seq<char>) -> FileStatus {
    let t = lower(s);
    if t == added_word() {
        FileStatus::Added
    } else if t == removed_word() || t == deleted_word() {
        FileStatus::Deleted
    } else if t == renamed_word() {
        FileStatus::Renamed
    } else {
        FileStatus::Modified
    }
}

impl From<&str> for FileStatus {
    fn from(s: &str) -> (r: FileStatus) {
        let cs = str_chars(s);
        let t = to_lower_chars(&cs);
        let added = vec!['a', 'd', 'd', 'e', 'd'];
        let removed = vec!['r', 'e', 'm', 'o', 'v', 'e', 'd'];
        let deleted = vec!['d', 'e', 'l', 'e', 't', 'e', 'd'];
        let renamed = vec!['r', 'e', 'n', 'a', 'm', 'e', 'd'];
        proof {
            assert(added@ =~= added_word());
            assert(removed@ =~= removed_word());
            assert(deleted@ =~= deleted_word());
            assert(renamed@ =~= renamed_word());
        }
        if chars_eq(&t, &added) {
            FileStatus::Added
        } else if chars_eq(&t, &removed) || chars_eq(&t, &deleted) {
            FileStatus::Deleted
        } else if chars_eq(&t, &renamed) {
            FileStatus::Renamed
        } else {
            FileStatus::Modified
        }
    }
}

impl vstd::std_specs::convert::FromSpecImpl<&str> for FileStatus {
    open spec fn obeys_from_spec() -> bool {
        true
    }

    open spec fn from_spec(v: &str) -> FileStatus {
        spec_file_status(v@)
    }
}

/// A file changed in a review, with its parsed change blocks.
#[derive(Debug, Clone, PartialEq)]
pub struct ReviewFile {
    pub path: String,
    pub status: FileStatus,
    /// Count of raw addition lines in the file's diff.
    pub additions: u32,
    /// Count of raw deletion lines in the file's diff.
    pub deletions: u32,
    /// Full file content, when a caller chooses to attach it.
    pub content: Option<String>,
    /// Parsed change blocks from the file's hunks.
    pub change_blocks: Vec<ChangeBlock>,
}

/// Mathematical view of a `ReviewFile`.
#[verifier::ext_equal]
pub struct ReviewFileView {
    pub path: Seq<char>,
    pub status: FileStatus,
    pub additions: u32,
    pub deletions: u32,
    pub content: Option<Seq<char>>,
    pub change_blocks: Seq<ChangeBlockView>,
}

impl DeepView for ReviewFile {
    type V = ReviewFileView;

    open spec fn deep_view(&self) -> ReviewFileView {
        ReviewFileView {
            path: self.path@,
            status: self.status,
            additions: self.additions,
            deletions: self.deletions,
            content: self.content.deep_view(),
            change_blocks: self.change_blocks.deep_view(),
        }
    }
}

/// A review comment on a pull request.
#[derive(Debug, Clone, PartialEq)]
pub struct ReviewComment {
    pub id: u64,
    pub path: String,
    pub line: Option<u32>,
    pub start_line: Option<u32>,
    pub side: String,
    pub start_side: Option<String>,
    pub body: String,
    pub author: String,
    pub created_at: String,
    pub html_url: String,
    pub in_reply_to_id: Option<u64>,
}

/// Everything the front-end needs to open a review.
#[derive(Debug, Clone, PartialEq)]
pub struct FetchResponse {
    pub pr: PullRequest,
    pub files: Vec<ReviewFile>,
    pub comments: Vec<ReviewComment>,
    pub viewer: String,
}

/// Outcome envelope of a comment operation.
#[derive(Debug, Clone, PartialEq)]
pub struct CommentResponse {
    pub success: bool,
    pub comment_id: Option<u64>,
    pub html_url: Option<String>,
    pub error: Option<String>,
}

impl CommentResponse {
    /// The envelope of a comment operation that went through.
    pub fn succeeded(comment_id: u64, html_url: Option<String>) -> (r: CommentResponse)
        ensures
            r.success,
            r.comment_id == Some(comment_id),
            r.html_url == html_url,
            r.error is None,
    {
        CommentResponse { success: true, comment_id: Some(comment_id), html_url, error: None }
    }

    /// The envelope of a comment operation that failed with `error`.
    pub fn failed(error: String) -> (r: CommentResponse)
        ensures
            !r.success,
            r.comment_id is None,
            r.html_url is None,
            r.error == Some(error),
    {
        CommentResponse { success: false, comment_id: None, html_url: None, error: Some(error) }
    }
}

/// The list of existing review comments.
#[derive(Debug, Clone, PartialEq)]
pub struct CommentsResponse {
    pub comments: Vec<ReviewComment>,
}

/// Whether authentication material is present and valid.
#[derive(Debug, Clone, PartialEq)]
pub enum AuthStatus {
    Authenticated { username: String, source: String },
    InvalidToken { error: String },
    NoToken { error: String },
}

/// The one-line rendering of an authentication status.
pub open spec fn spec_auth_status_message(a: AuthStatus) -> Seq<char> {
    match a {
        AuthStatus::Authenticated { username, source } => "Authenticated as "@ + username@
            + " (via "@ + source@ + ")"@,
        AuthStatus::InvalidToken { error } => "Invalid token: "@ + error@,
        AuthStatus::NoToken { error } => "No token: "@ + error@,
    }
}

impl AuthStatus {
    /// Render the status as one line for display.
    pub fn describe(&self) -> (r: String)
        ensures
            r@ == spec_auth_status_message(*self),
    {
        match self {
            AuthStatus::Authenticated { username, source } => {
                let mut s = String::from_str("Authenticated as ");
                s.append(username.as_str());
                s.append(" (via ");
                s.append(source.as_str());
                s.append(")");
                proof {
                    assert(s@ =~= spec_auth_status_message(*self));
                }
                s
            },
            AuthStatus::InvalidToken { error } => {
                let mut s = String::from_str("Invalid token: ");
                s.append(error.as_str());
                proof {
                    assert(s@ =~= spec_auth_status_message(*self));
                }
                s
            },
            AuthStatus::NoToken { error } => {
                let mut s = String::from_str("No token: ");
                s.append(error.as_str());
                proof {
                    assert(s@ =~= spec_auth_status_message(*self));
                }
                s
            },
        }
    }
}

} // verus!
