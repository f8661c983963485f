//! The file diff splitter: scans a multi-file diff stream for file headers,
//! determines each file's change status, counts its raw addition and deletion
//! lines, hands its hunks to the hunk parser, and drops files without content
//! changes.

use vstd::prelude::*;

use crate::diff::lemmas::lemma_parse_patch_wf;
use crate::diff::parser::{
    classify, classify_line, file_header_path, find_file_header_sep, is_file_header,
    run_patch_machine, spec_parse_patch, LineClass, StatusKind,
};
use crate::diff::types::block_wf;
use crate::github::types::{FileStatus, ReviewFile, ReviewFileView};
use crate::text::{chars_to_string, copy_range, spec_lines, split_lines, str_chars};

verus! {

/// The status of a file section: the first status marker before the first
/// hunk header decides; `Modified` when there is none.
pub open spec fn section_status(sec: Seq<Seq<char>>) -> FileStatus
    decreases sec.len(),
{
    if sec.len() == 0 {
        FileStatus::Modified
    } else {
        match classify(sec[0]) {
            LineClass::HunkHeader => FileStatus::Modified,
            LineClass::StatusMarker(k) => match k {
                StatusKind::NewFile => FileStatus::Added,
                StatusKind::DeletedFile => FileStatus::Deleted,
                StatusKind::Renamed => FileStatus::Renamed,
            },
            _ => section_status(sec.drop_first()),
        }
    }
}

/// Number of lines classified as additions.
pub open spec fn additions_count(sec: Seq<Seq<char>>) -> int
    decreases sec.len(),
{
    if sec.len() == 0 {
        0
    } else {
        additions_count(sec.drop_last()) + if classify(sec.last()) is Addition {
            1int
        } else {
            0int
        }
    }
}

/// Number of lines classified as deletions.
pub open spec fn deletions_count(sec: Seq<Seq<char>>) -> int
    decreases sec.len(),
{
    if sec.len() == 0 {
        0
    } else {
        deletions_count(sec.drop_last()) + if classify(sec.last()) is Deletion {
            1int
        } else {
            0int
        }
    }
}

/// Clamp a count into `u32`.
pub open spec fn u32_saturated(v: int) -> u32 {
    if v <= u32::MAX {
        v as u32
    } else {
        u32::MAX
    }
}

/// The review file a header path and its section of lines produce.
pub open spec fn make_review_file(path: Seq<char>, sec: Seq<Seq<char>>) -> ReviewFileView {
    ReviewFileView {
        path,
        status: section_status(sec),
        additions: u32_saturated(additions_count(sec)),
        deletions: u32_saturated(deletions_count(sec)),
        content: None,
        change_blocks: spec_parse_patch(sec),
    }
}

/// Index of the first file-header line at or after `from`, or the number of
/// lines when there is none.
pub open spec fn next_file_header(lines: Seq<Seq<char>>, from: int) -> int
    decreases lines.len() - from,
{
    if !(0 <= from < lines.len()) {
        lines.len() as int
    } else if classify(lines[from]) is FileHeader {
        from
    } else {
        next_file_header(lines, from + 1)
    }
}

pub proof fn lemma_next_fh_bounds(lines: Seq<Seq<char>>, from: int)
    requires
        0 <= from <= lines.len(),
    ensures
        from <= next_file_header(lines, from) <= lines.len(),
    decreases lines.len() - from,
{
    if from < lines.len() && !(classify(lines[from]) is FileHeader) {
        lemma_next_fh_bounds(lines, from + 1);
    }
}

/// The review files of the sections from the file header at `i` on; a file
/// whose section yields no change blocks is dropped.
pub open spec fn files_from(lines: Seq<Seq<char>>, i: int) -> Seq<ReviewFileView>
    decreases lines.len() - i,
    via files_from_dec
{
    if !(0 <= i < lines.len()) {
        Seq::empty()
    } else {
        let j = next_file_header(lines, i + 1);
        let sec = lines.subrange(i + 1, j);
        let f = make_review_file(file_header_path(lines[i]), sec);
        let rest = files_from(lines, j);
        if f.change_blocks.len() > 0 {
            seq![f] + rest
        } else {
            rest
        }
    }
}

#[via_fn]
proof fn files_from_dec(lines: Seq<Seq<char>>, i: int) {
    if 0 <= i < lines.len() {
        lemma_next_fh_bounds(lines, i + 1);
    }
}

/// The review files of a whole multi-file diff stream.
pub open spec fn spec_parse_git_diff(lines: Seq<Seq<char>>) -> Seq<ReviewFileView> {
    files_from(lines, next_file_header(lines, 0))
}

/// Every file the splitter emits has at least one change block, and every
/// one of its blocks is well formed.
pub proof fn lemma_files_from_wf(lines: Seq<Seq<char>>, i: int)
    ensures
        forall|a: int|
            0 <= a < files_from(lines, i).len() ==> (#[trigger] files_from(lines, i)[a]).change_blocks.len()
                > 0,
        forall|a: int, b: int|
            0 <= a < files_from(lines, i).len() && 0 <= b < files_from(
                lines,
                i,
            )[a].change_blocks.len() ==> block_wf(
                #[trigger] files_from(lines, i)[a].change_blocks[b],
            ),
    decreases lines.len() - i,
{
    if 0 <= i < lines.len() {
        let j = next_file_header(lines, i + 1);
        lemma_next_fh_bounds(lines, i + 1);
        let sec = lines.subrange(i + 1, j);
        let f = make_review_file(file_header_path(lines[i]), sec);
        let rest = files_from(lines, j);
        lemma_parse_patch_wf(sec);
        lemma_files_from_wf(lines, j);
        if f.change_blocks.len() > 0 {
            assert forall|a: int| 0 <= a < files_from(lines, i).len() implies (#[trigger] files_from(
                lines,
                i,
            )[a]).change_blocks.len() > 0 by {
                if a > 0 {
                    assert(files_from(lines, i)[a] == rest[a - 1]);
                }
            }
            assert forall|a: int, b: int|
                0 <= a < files_from(lines, i).len() && 0 <= b < files_from(
                    lines,
                    i,
                )[a].change_blocks.len() implies block_wf(
                #[trigger] files_from(lines, i)[a].change_blocks[b],
            ) by {
                if a > 0 {
                    assert(files_from(lines, i)[a] == rest[a - 1]);
                }
            }
        }
    }
}

/// Index of the first file-header line at or after `from`.
fn scan_next_header(lines: &Vec<Vec<char>>, from: usize) -> (r: usize)
    requires
        from <= lines@.len(),
    ensures
        from <= r <= lines@.len(),
        r as int == next_file_header(lines.deep_view(), from as int),
        r < lines@.len() ==> classify(lines.deep_view()[r as int]) is FileHeader,
{
    let n = lines.len();
    let mut i = from;
    while i < n
        invariant
            from <= i <= n == lines@.len(),
            next_file_header(lines.deep_view(), from as int) == next_file_header(
                lines.deep_view(),
                i as int,
            ),
        decreases n - i,
    {
        let k = classify_line(&lines[i]);
        proof {
            assert(lines.deep_view()[i as int] =~= lines@[i as int]@);
        }
        if matches!(k, LineClass::FileHeader) {
            return i;
        }
        i += 1;
    }
    i
}

/// Status of the section `lines[from..to]`.
fn section_status_exec(lines: &Vec<Vec<char>>, from: usize, to: usize) -> (st: FileStatus)
    requires
        from <= to <= lines@.len(),
    ensures
        st == section_status(lines.deep_view().subrange(from as int, to as int)),
{
    let mut k = from;
    while k < to
        invariant
            from <= k <= to <= lines@.len(),
            section_status(lines.deep_view().subrange(from as int, to as int)) == section_status(
                lines.deep_view().subrange(k as int, to as int),
            ),
        decreases to - k,
    {
        let c = classify_line(&lines[k]);
        proof {
            let sec = lines.deep_view().subrange(k as int, to as int);
            assert(sec[0] =~= lines@[k as int]@);
            assert(sec.drop_first() =~= lines.deep_view().subrange(k + 1 as int, to as int));
        }
        match c {
            LineClass::HunkHeader => {
                return FileStatus::Modified;
            },
            LineClass::StatusMarker(sk) => {
                return match sk {
                    StatusKind::NewFile => FileStatus::Added,
                    StatusKind::DeletedFile => FileStatus::Deleted,
                    StatusKind::Renamed => FileStatus::Renamed,
                };
            },
            _ => {},
        }
        k += 1;
    }
    FileStatus::Modified
}

/// Count the addition and deletion lines of `lines[from..to]`.
fn count_changes(lines: &Vec<Vec<char>>, from: usize, to: usize) -> (r: (u32, u32))
    requires
        from <= to <= lines@.len(),
    ensures
        r.0 == u32_saturated(additions_count(lines.deep_view().subrange(from as int, to as int))),
        r.1 == u32_saturated(deletions_count(lines.deep_view().subrange(from as int, to as int))),
{
    let n = lines.len();
    let mut adds: u64 = 0;
    let mut dels: u64 = 0;
    let mut k = from;
    proof {
        assert(lines.deep_view().subrange(from as int, from as int).len() == 0);
    }
    while k < to
        invariant
            from <= k <= to <= n == lines@.len(),
            adds == additions_count(lines.deep_view().subrange(from as int, k as int)),
            dels == deletions_count(lines.deep_view().subrange(from as int, k as int)),
            adds <= k - from,
            dels <= k - from,
        decreases to - k,
    {
        let c = classify_line(&lines[k]);
        proof {
            let pre = lines.deep_view().subrange(from as int, k as int);
            let ext = lines.deep_view().subrange(from as int, k + 1 as int);
            assert(ext.drop_last() =~= pre);
            assert(ext.last() =~= lines@[k as int]@);
        }
        match c {
            LineClass::Addition => {
                adds += 1;
            },
            LineClass::Deletion => {
                dels += 1;
            },
            _ => {},
        }
        k += 1;
    }
    let a32 = if adds <= u32::MAX as u64 {
        adds as u32
    } else {
        u32::MAX
    };
    let d32 = if dels <= u32::MAX as u64 {
        dels as u32
    } else {
        u32::MAX
    };
    (a32, d32)
}

/// Assemble the review file for the header at `i` and its section `[i+1, j)`.
fn build_review_file(lines: &Vec<Vec<char>>, i: usize, j: usize) -> (f: ReviewFile)
    requires
        i < j <= lines@.len(),
        classify(lines.deep_view()[i as int]) is FileHeader,
    ensures
        f.deep_view() == make_review_file(
            file_header_path(lines.deep_view()[i as int]),
            lines.deep_view().subrange(i + 1 as int, j as int),
        ),
{
    let line: &Vec<char> = &lines[i];
    proof {
        assert(lines.deep_view()[i as int] =~= line@);
        assert(is_file_header(line@));
    }
    let sep = find_file_header_sep(line).unwrap();
    let ln = line.len();
    proof {
        assert(sep + 3 <= ln);
    }
    let path_chars = copy_range(line, sep + 3, ln);
    let path = chars_to_string(&path_chars);
    let status = section_status_exec(lines, i + 1, j);
    let (additions, deletions) = count_changes(lines, i + 1, j);
    let change_blocks = run_patch_machine(lines, i + 1, j);
    let f = ReviewFile { path, status, additions, deletions, content: None, change_blocks };
    proof {
        assert(path@ =~= file_header_path(lines.deep_view()[i as int]));
        assert(f.deep_view() =~~= make_review_file(
            file_header_path(lines.deep_view()[i as int]),
            lines.deep_view().subrange(i + 1 as int, j as int),
        ));
    }
    f
}

/// Split a multi-file diff stream into per-file review results. Exactly
/// `spec_parse_git_diff` of the stream's lines: each file section becomes
/// one `ReviewFile` whose blocks come from the hunk parser, and a section
/// without content changes is omitted. Every emitted file has at least one
/// change block, and all blocks are well formed.
pub fn parse_git_diff(diff_output: &str) -> (files: Vec<ReviewFile>)
    ensures
        files.deep_view() == spec_parse_git_diff(spec_lines(diff_output@)),
        forall|a: int|
            0 <= a < files.deep_view().len() ==> (#[trigger] files.deep_view()[a]).change_blocks.len()
                > 0,
        forall|a: int, b: int|
            0 <= a < files.deep_view().len() && 0 <= b < files.deep_view()[a].change_blocks.len()
                ==> block_wf(#[trigger] files.deep_view()[a].change_blocks[b]),
{
    let chars = str_chars(diff_output);
    let lines = split_lines(&chars);
    let ghost deep = lines.deep_view();
    let ghost total = spec_parse_git_diff(spec_lines(diff_output@));
    let mut files: Vec<ReviewFile> = Vec::new();
    let n = lines.len();
    let mut i = scan_next_header(&lines, 0);
    proof {
        assert(files.deep_view() + files_from(deep, i as int) =~= total);
    }
    while i < n
        invariant
            i <= n == lines@.len(),
            deep == lines.deep_view(),
            total == spec_parse_git_diff(spec_lines(diff_output@)),
            i < n ==> classify(deep[i as int]) is FileHeader,
            files.deep_view() + files_from(deep, i as int) == total,
        decreases n - i,
    {
        let j = scan_next_header(&lines, i + 1);
        let f = build_review_file(&lines, i, j);
        let ghost pre = files.deep_view();
        if f.change_blocks.len() > 0 {
            proof {
                crate::text::lemma_deep_view_push(files@, f);
            }
            files.push(f);
            proof {
                assert(files.deep_view() =~= pre.push(f.deep_view()));
                assert(pre.push(f.deep_view()) + files_from(deep, j as int) =~= pre + (seq![
                    f.deep_view(),
                ] + files_from(deep, j as int)));
            }
        } else {
            proof {
                assert(f.deep_view().change_blocks.len() == 0);
            }
        }
        i = j;
    }
    proof {
        assert(files_from(deep, n as int) =~= Seq::<ReviewFileView>::empty());
        assert(files.deep_view() =~= total);
        lemma_files_from_wf(spec_lines(diff_output@), next_file_header(
            spec_lines(diff_output@),
            0,
        ));
    }
    files
}

} // verus!
