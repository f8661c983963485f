//! Pure logic of the local-diff command: option validation, git argument
//! construction, revision-target resolution, and assembling review files
//! from untracked-file patches.

use vstd::prelude::*;
use vstd::string::StrSliceExecFns;
use vstd::string::StringExecFns;

use crate::diff::splitter::{parse_git_diff, spec_parse_git_diff};
use crate::github::types::{ReviewFile, ReviewFileView};
use crate::text::spec_lines;

verus! {

/// Options of the local-diff command, as the command line hands them over.
#[derive(Debug, Clone, PartialEq)]
pub struct LocalDiffCliOpts {
    pub target: Option<String>,
    pub cached_only: bool,
    pub uncached_only: bool,
    pub merge_base: bool,
    pub tracked_only: bool,
}

impl Default for LocalDiffCliOpts {
    fn default() -> (r: Self)
        ensures
            r.target is None,
            !r.cached_only,
            !r.uncached_only,
            !r.merge_base,
            !r.tracked_only,
    {
        LocalDiffCliOpts {
            target: None,
            cached_only: false,
            uncached_only: false,
            merge_base: false,
            tracked_only: false,
        }
    }
}

/// Which working-tree changes a local diff covers.
#[derive(Debug, Clone, Copy, PartialEq, Eq, Structural)]
pub enum LocalDiffMode {
    All,
    CachedOnly,
    UncachedOnly,
}

/// The ways the local-diff options can contradict each other.
#[derive(Debug, Clone, Copy, PartialEq, Eq, Structural)]
pub enum LocalDiffError {
    /// `--cached-only` and `--uncached-only` together.
    ConflictingModes,
    /// A revision target together with `--uncached-only`.
    TargetWithUncachedOnly,
    /// `--merge-base` together with `--uncached-only`.
    MergeBaseWithUncachedOnly,
}

impl LocalDiffError {
    /// The message reported for this option conflict.
    pub fn message(&self) -> (r: String)
        ensures
            *self is ConflictingModes ==> r@
                == "Cannot combine --cached-only and --uncached-only for local diff"@,
            *self is TargetWithUncachedOnly ==> r@
                == "Cannot use a revision target with --uncached-only (use --cached-only or default mode)"@,
            *self is MergeBaseWithUncachedOnly ==> r@
                == "Cannot use --merge-base with --uncached-only (requires a revision target)"@,
    {
        match self {
            LocalDiffError::ConflictingModes => String::from_str(
                "Cannot combine --cached-only and --uncached-only for local diff",
            ),
            LocalDiffError::TargetWithUncachedOnly => String::from_str(
                "Cannot use a revision target with --uncached-only (use --cached-only or default mode)",
            ),
            LocalDiffError::MergeBaseWithUncachedOnly => String::from_str(
                "Cannot use --merge-base with --uncached-only (requires a revision target)",
            ),
        }
    }
}

/// The local diff's files together with the repository root they are
/// relative to.
#[derive(Debug, Clone, PartialEq)]
pub struct DiffResponse {
    pub files: Vec<ReviewFile>,
    pub git_root: String,
}

/// The argument list handed to the version-control binary for one diff.
pub open spec fn spec_git_diff_args(
    target: Option<Seq<char>>,
    ignore_whitespace: bool,
    mode: LocalDiffMode,
) -> Seq<Seq<char>> {
    seq!["diff"@] + (if ignore_whitespace {
        seq!["-w"@]
    } else {
        Seq::empty()
    }) + (if mode is CachedOnly {
        seq!["--cached"@]
    } else {
        Seq::empty()
    }) + (match target {
        Some(t) => seq![t],
        None => Seq::empty(),
    })
}

/// Build the git arguments for one diff invocation: `diff`, `-w` when
/// whitespace is ignored, `--cached` in cached-only mode, then the revision
/// target when there is one.
pub fn build_git_diff_args(
    diff_target: Option<&str>,
    ignore_whitespace: bool,
    mode: LocalDiffMode,
) -> (args: Vec<String>)
    ensures
        args.deep_view() == spec_git_diff_args(
            match diff_target {
                Some(t) => Some(t@),
                None => None,
            },
            ignore_whitespace,
            mode,
        ),
{
    let mut args: Vec<String> = Vec::new();
    args.push(String::from_str("diff"));
    if ignore_whitespace {
        args.push(String::from_str("-w"));
    }
    if matches!(mode, LocalDiffMode::CachedOnly) {
        args.push(String::from_str("--cached"));
    }
    match diff_target {
        Some(t) => {
            args.push(String::from_str(t));
        },
        None => {},
    }
    proof {
        assert(args.deep_view() =~= spec_git_diff_args(
            match diff_target {
                Some(t) => Some(t@),
                None => None,
            },
            ignore_whitespace,
            mode,
        ));
    }
    args
}

/// Validate the mode flags: the two exclusive-mode flags may not be
/// combined; otherwise the one that is set picks the mode.
pub fn parse_local_diff_mode(cached_only: bool, uncached_only: bool) -> (r: Result<
    LocalDiffMode,
    LocalDiffError,
>)
    ensures
        cached_only && uncached_only ==> r == Result::<LocalDiffMode, LocalDiffError>::Err(
            LocalDiffError::ConflictingModes,
        ),
        cached_only && !uncached_only ==> r == Result::<LocalDiffMode, LocalDiffError>::Ok(
            LocalDiffMode::CachedOnly,
        ),
        !cached_only && uncached_only ==> r == Result::<LocalDiffMode, LocalDiffError>::Ok(
            LocalDiffMode::UncachedOnly,
        ),
        !cached_only && !uncached_only ==> r == Result::<LocalDiffMode, LocalDiffError>::Ok(
            LocalDiffMode::All,
        ),
{
    if cached_only && uncached_only {
        Err(LocalDiffError::ConflictingModes)
    } else if cached_only {
        Ok(LocalDiffMode::CachedOnly)
    } else if uncached_only {
        Ok(LocalDiffMode::UncachedOnly)
    } else {
        Ok(LocalDiffMode::All)
    }
}

/// Resolve the revision to diff against. Uncached-only mode takes no
/// revision and no merge base; the other modes default to `HEAD`. A caller
/// that wants the merge base of the selected revision resolves it itself
/// (that takes the version-control binary), so those inputs are excluded
/// here.
pub fn resolve_local_diff_target(
    target: Option<&str>,
    mode: LocalDiffMode,
    merge_base: bool,
) -> (r: Result<Option<String>, LocalDiffError>)
    requires
        merge_base ==> mode is UncachedOnly,
    ensures
        mode is UncachedOnly && target is Some ==> r == Result::<
            Option<String>,
            LocalDiffError,
        >::Err(LocalDiffError::TargetWithUncachedOnly),
        mode is UncachedOnly && target is None && merge_base ==> r == Result::<
            Option<String>,
            LocalDiffError,
        >::Err(LocalDiffError::MergeBaseWithUncachedOnly),
        mode is UncachedOnly && target is None && !merge_base ==> r == Result::<
            Option<String>,
            LocalDiffError,
        >::Ok(None),
        !(mode is UncachedOnly) ==> (r matches Ok(o) && o matches Some(t) && t@ == (match target {
            Some(s) => s@,
            None => "HEAD"@,
        })),
{
    if matches!(mode, LocalDiffMode::UncachedOnly) {
        if target.is_some() {
            return Err(LocalDiffError::TargetWithUncachedOnly);
        }
        if merge_base {
            return Err(LocalDiffError::MergeBaseWithUncachedOnly);
        }
        return Ok(None);
    }
    match target {
        Some(t) => Ok(Some(String::from_str(t))),
        None => Ok(Some(String::from_str("HEAD"))),
    }
}

/// Untracked files are included unless the caller asked for tracked files
/// only or for the staged changes only.
pub fn should_include_untracked(mode: LocalDiffMode, tracked_only: bool) -> (b: bool)
    ensures
        b == (!tracked_only && !(mode is CachedOnly)),
{
    !tracked_only && !matches!(mode, LocalDiffMode::CachedOnly)
}

/// The three-dot revision range between a pull request's base and head.
pub fn build_pr_diff_target(base_sha: &str, head_sha: &str) -> (r: String)
    ensures
        r@ == base_sha@ + "..."@ + head_sha@,
{
    let mut s = String::from_str(base_sha);
    s.append("...");
    s.append(head_sha);
    proof {
        assert(s@ =~= base_sha@ + "..."@ + head_sha@);
    }
    s
}

/// The review files of a list of per-file untracked patches, in order.
pub open spec fn spec_untracked_files(ps: Seq<Seq<char>>) -> Seq<ReviewFileView>
    decreases ps.len(),
{
    if ps.len() == 0 {
        Seq::empty()
    } else {
        spec_parse_git_diff(spec_lines(ps[0])) + spec_untracked_files(ps.drop_first())
    }
}

/// Parse each untracked file's patch and collect the resulting review
/// files, in the order the patches come in.
pub fn get_untracked_review_files(patches: &Vec<String>) -> (files: Vec<ReviewFile>)
    ensures
        files.deep_view() == spec_untracked_files(patches.deep_view()),
{
    let mut files: Vec<ReviewFile> = Vec::new();
    let n = patches.len();
    let mut i: usize = 0;
    proof {
        assert(patches.deep_view().skip(0) =~= patches.deep_view());
        assert(files.deep_view() + spec_untracked_files(patches.deep_view().skip(0))
            =~= spec_untracked_files(patches.deep_view()));
    }
    while i < n
        invariant
            0 <= i <= n == patches@.len(),
            files.deep_view() + spec_untracked_files(patches.deep_view().skip(i as int))
                == spec_untracked_files(patches.deep_view()),
        decreases n - i,
    {
        let ghost pre = files.deep_view();
        let mut found = parse_git_diff(patches[i].as_str());
        proof {
            let sub = patches.deep_view().skip(i as int);
            assert(sub[0] =~= patches@[i as int]@);
            assert(sub.drop_first() =~= patches.deep_view().skip(i + 1 as int));
        }
        let ghost found_view = found.deep_view();
        files.append(&mut found);
        proof {
            assert(files.deep_view() =~= pre + found_view);
            assert((pre + found_view) + spec_untracked_files(
                patches.deep_view().skip(i + 1 as int),
            ) =~= pre + (found_view + spec_untracked_files(patches.deep_view().skip(i + 1 as int))));
        }
        i += 1;
    }
    proof {
        assert(spec_untracked_files(patches.deep_view().skip(n as int)) =~= Seq::<
            ReviewFileView,
        >::empty());
        assert(files.deep_view() + spec_untracked_files(patches.deep_view().skip(n as int))
            =~= files.deep_view());
    }
    files
}

} // verus!
