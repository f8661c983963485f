//! The hunk-level diff parser: line classification, hunk-header parsing, and
//! the block-building state machine that turns one file's hunk stream into
//! change blocks.

use vstd::prelude::*;

use crate::diff::types::{
    ChangeBlock, ChangeBlockView, ChangeKind, DeletionGroup, DeletionGroupView, OldToNewMap,
};
use crate::text::{
    char_is_digit, char_is_space, chars_to_string, copy_range, digit_val, digits_val, is_digit,
    is_space, lemma_digits_val_nonneg, spec_lines, split_lines, starts_with, str_chars,
};

verus! {

/// Which of the four status-marker spellings a line carries.
#[derive(Debug, Clone, Copy, PartialEq, Eq, Structural)]
pub enum StatusKind {
    NewFile,
    DeletedFile,
    Renamed,
}

/// The classification of a single diff line, by its leading characters.
#[derive(Debug, Clone, Copy, PartialEq, Eq, Structural)]
pub enum LineClass {
    /// `diff --git a/<path> b/<path>`
    FileHeader,
    /// A well-formed `@@ -a[,b] +c[,d] @@` header.
    HunkHeader,
    /// `\ No newline at end of file`
    NoNewlineMarker,
    /// `new file`, `deleted file` or `renamed`.
    StatusMarker(StatusKind),
    /// Starts with `-` but not `--`.
    Deletion,
    /// Starts with `+` but not `++`.
    Addition,
    /// Starts with a space.
    Context,
    /// Empty line; flushes exactly as a context line does.
    Blank,
    /// Anything else; inert.
    Other,
}

/// The four integers of a hunk header; omitted counts default to 1.
#[derive(Debug, Clone, Copy, PartialEq, Eq, Structural)]
pub struct HunkHeader {
    pub old_start: u32,
    pub old_count: u32,
    pub new_start: u32,
    pub new_count: u32,
}

pub open spec fn diff_git_prefix() -> Seq<char> {
    seq!['d', 'i', 'f', 'f', ' ', '-', '-', 'g', 'i', 't', ' ', 'a', '/']
}

pub open spec fn no_newline_prefix() -> Seq<char> {
    seq![
        '\\', ' ', 'N', 'o', ' ', 'n', 'e', 'w', 'l', 'i', 'n', 'e', ' ', 'a', 't', ' ', 'e', 'n',
        'd', ' ', 'o', 'f', ' ', 'f', 'i', 'l', 'e',
    ]
}

pub open spec fn new_file_prefix() -> Seq<char> {
    seq!['n', 'e', 'w', ' ', 'f', 'i', 'l', 'e']
}

pub open spec fn deleted_file_prefix() -> Seq<char> {
    seq!['d', 'e', 'l', 'e', 't', 'e', 'd', ' ', 'f', 'i', 'l', 'e']
}

pub open spec fn renamed_prefix() -> Seq<char> {
    seq!['r', 'e', 'n', 'a', 'm', 'e', 'd']
}

/// `" b/"` separates the two paths of a file header at position `i`.
pub open spec fn is_sep_at(l: Seq<char>, i: int) -> bool {
    0 <= i && i + 3 <= l.len() && l[i] == ' ' && l[i + 1] == 'b' && l[i + 2] == '/'
}

/// The largest separator position at most `i` that leaves both paths
/// non-empty, or -1. The pre-image path starts at position 13, so a
/// separator must sit at 14 or later.
pub open spec fn fh_sep_from(l: Seq<char>, i: int) -> int
    decreases i,
{
    if i < 14 {
        -1
    } else if is_sep_at(l, i) {
        i
    } else {
        fh_sep_from(l, i - 1)
    }
}

/// Position of the `" b/"` that splits a file-header line, or -1.
pub open spec fn file_header_sep(l: Seq<char>) -> int {
    fh_sep_from(l, l.len() - 4)
}

/// A line of the form `diff --git a/<path> b/<path>` with both paths
/// non-empty; the post-image path follows the last such separator.
pub open spec fn is_file_header(l: Seq<char>) -> bool {
    starts_with(l, diff_git_prefix()) && file_header_sep(l) >= 0
}

/// The post-image path captured from a file-header line.
pub open spec fn file_header_path(l: Seq<char>) -> Seq<char> {
    l.subrange(file_header_sep(l) + 3, l.len() as int)
}

/// First position at or after `i` whose character is not whitespace.
pub open spec fn skip_ws(l: Seq<char>, i: int) -> int
    decreases l.len() - i,
{
    if 0 <= i < l.len() && is_space(l[i]) {
        skip_ws(l, i + 1)
    } else {
        i
    }
}

/// First position at or after `i` whose character is not a digit.
pub open spec fn skip_digits(l: Seq<char>, i: int) -> int
    decreases l.len() - i,
{
    if 0 <= i < l.len() && is_digit(l[i]) {
        skip_digits(l, i + 1)
    } else {
        i
    }
}

/// A digit run's value if it fits in `u32`, else 0 (the value an
/// out-of-range number falls back to).
pub open spec fn u32_or_zero(v: int) -> u32 {
    if v <= u32::MAX {
        v as u32
    } else {
        0
    }
}

/// Parse `@@ -<old_start>[,<old_count>] +<new_start>[,<new_count>] @@...`,
/// with flexible whitespace between the parts. `None` for anything
/// malformed; such a line is inert.
pub open spec fn spec_parse_hunk_header(l: Seq<char>) -> Option<HunkHeader> {
    if !(l.len() >= 2 && l[0] == '@' && l[1] == '@') {
        None
    } else {
        let p1 = skip_ws(l, 2);
        if !(p1 < l.len() && l[p1] == '-') {
            None
        } else {
            let d1 = skip_digits(l, p1 + 1);
            if d1 == p1 + 1 {
                None
            } else {
                let has_oc = d1 < l.len() && l[d1] == ',';
                let d2 = if has_oc {
                    skip_digits(l, d1 + 1)
                } else {
                    d1
                };
                if has_oc && d2 == d1 + 1 {
                    None
                } else {
                    let p2 = skip_ws(l, d2);
                    if !(p2 < l.len() && l[p2] == '+') {
                        None
                    } else {
                        let d3 = skip_digits(l, p2 + 1);
                        if d3 == p2 + 1 {
                            None
                        } else {
                            let has_nc = d3 < l.len() && l[d3] == ',';
                            let d4 = if has_nc {
                                skip_digits(l, d3 + 1)
                            } else {
                                d3
                            };
                            if has_nc && d4 == d3 + 1 {
                                None
                            } else {
                                let p3 = skip_ws(l, d4);
                                if p3 + 2 <= l.len() && l[p3] == '@' && l[p3 + 1] == '@' {
                                    Some(
                                        HunkHeader {
                                            old_start: u32_or_zero(digits_val(l, p1 + 1, d1)),
                                            old_count: if has_oc {
                                                u32_or_zero(digits_val(l, d1 + 1, d2))
                                            } else {
                                                1u32
                                            },
                                            new_start: u32_or_zero(digits_val(l, p2 + 1, d3)),
                                            new_count: if has_nc {
                                                u32_or_zero(digits_val(l, d3 + 1, d4))
                                            } else {
                                                1u32
                                            },
                                        },
                                    )
                                } else {
                                    None
                                }
                            }
                        }
                    }
                }
            }
        }
    }
}

/// Classify one diff line by its leading characters, in priority order.
pub open spec fn classify(l: Seq<char>) -> LineClass {
    if is_file_header(l) {
        LineClass::FileHeader
    } else if spec_parse_hunk_header(l) is Some {
        LineClass::HunkHeader
    } else if starts_with(l, no_newline_prefix()) {
        LineClass::NoNewlineMarker
    } else if starts_with(l, new_file_prefix()) {
        LineClass::StatusMarker(StatusKind::NewFile)
    } else if starts_with(l, deleted_file_prefix()) {
        LineClass::StatusMarker(StatusKind::DeletedFile)
    } else if starts_with(l, renamed_prefix()) {
        LineClass::StatusMarker(StatusKind::Renamed)
    } else if l.len() > 0 && l[0] == '-' && !(l.len() > 1 && l[1] == '-') {
        LineClass::Deletion
    } else if l.len() > 0 && l[0] == '+' && !(l.len() > 1 && l[1] == '+') {
        LineClass::Addition
    } else if l.len() > 0 && l[0] == ' ' {
        LineClass::Context
    } else if l.len() == 0 {
        LineClass::Blank
    } else {
        LineClass::Other
    }
}

/// The content of a deletion line: everything after the `-` marker.
pub open spec fn deletion_content(l: Seq<char>) -> Seq<char> {
    l.drop_first()
}

fn has_prefix(l: &Vec<char>, p: &Vec<char>) -> (b: bool)
    ensures
        b == starts_with(l@, p@),
{
    if p.len() > l.len() {
        return false;
    }
    let mut i: usize = 0;
    while i < p.len()
        invariant
            0 <= i <= p@.len() <= l@.len(),
            forall|j: int| 0 <= j < i ==> l@[j] == p@[j],
        decreases p@.len() - i,
    {
        if l[i] != p[i] {
            proof {
                assert(l@.subrange(0, p@.len() as int)[i as int] != p@[i as int]);
            }
            return false;
        }
        i += 1;
    }
    proof {
        assert(l@.subrange(0, p@.len() as int) =~= p@);
    }
    true
}

/// Position of the `" b/"` separator of a file-header line, scanned from
/// the right.
pub(crate) fn find_file_header_sep(l: &Vec<char>) -> (r: Option<usize>)
    ensures
        file_header_sep(l@) == (match r {
            Some(i) => i as int,
            None => -1,
        }),
        r matches Some(i) ==> i + 3 <= l@.len(),
{
    if l.len() < 18 {
        proof {
            assert(fh_sep_from(l@, l@.len() - 4) == -1);
        }
        return None;
    }
    let n = l.len();
    let mut i: usize = n - 4;
    loop
        invariant
            14 <= i <= n - 4,
            n == l@.len(),
            fh_sep_from(l@, l@.len() - 4) == fh_sep_from(l@, i as int),
        decreases i,
    {
        if l[i] == ' ' && l[i + 1] == 'b' && l[i + 2] == '/' {
            return Some(i);
        }
        if i == 14 {
            proof {
                assert(fh_sep_from(l@, 13) == -1);
            }
            return None;
        }
        i -= 1;
    }
}

/// True for a `diff --git a/<path> b/<path>` line.
pub fn is_file_header_line(l: &Vec<char>) -> (b: bool)
    ensures
        b == is_file_header(l@),
{
    let p = vec!['d', 'i', 'f', 'f', ' ', '-', '-', 'g', 'i', 't', ' ', 'a', '/'];
    proof {
        assert(p@ =~= diff_git_prefix());
    }
    has_prefix(l, &p) && find_file_header_sep(l).is_some()
}

fn scan_ws(l: &Vec<char>, i: usize) -> (r: usize)
    requires
        i <= l@.len(),
    ensures
        i <= r <= l@.len(),
        r == skip_ws(l@, i as int),
{
    let mut cur = i;
    while cur < l.len() && char_is_space(l[cur])
        invariant
            i <= cur <= l@.len(),
            skip_ws(l@, i as int) == skip_ws(l@, cur as int),
        decreases l@.len() - cur,
    {
        cur += 1;
    }
    cur
}

fn scan_digits(l: &Vec<char>, i: usize) -> (r: usize)
    requires
        i <= l@.len(),
    ensures
        i <= r <= l@.len(),
        r == skip_digits(l@, i as int),
        forall|j: int| i <= j < r ==> is_digit(l@[j]),
    decreases l@.len() - i,
{
    let mut cur = i;
    while cur < l.len() && char_is_digit(l[cur])
        invariant
            i <= cur <= l@.len(),
            skip_digits(l@, i as int) == skip_digits(l@, cur as int),
            forall|j: int| i <= j < cur ==> is_digit(l@[j]),
        decreases l@.len() - cur,
    {
        cur += 1;
    }
    cur
}

/// Value of the digit run `l[a..b]` if it fits in `u32`, else 0.
fn parse_u32_run(l: &Vec<char>, a: usize, b: usize) -> (r: u32)
    requires
        a <= b <= l@.len(),
        forall|j: int| a <= j < b ==> is_digit(l@[j]),
    ensures
        r == u32_or_zero(digits_val(l@, a as int, b as int)),
{
    let mut acc: u64 = 0;
    let mut j = a;
    while j < b
        invariant
            a <= j <= b <= l@.len(),
            forall|k: int| a <= k < b ==> is_digit(l@[k]),
            acc <= u32::MAX as u64 ==> acc == digits_val(l@, a as int, j as int),
            acc > u32::MAX as u64 ==> digits_val(l@, a as int, j as int) > u32::MAX,
        decreases b - j,
    {
        let c = l[j];
        let d: u64 = if c == '0' {
            0
        } else if c == '1' {
            1
        } else if c == '2' {
            2
        } else if c == '3' {
            3
        } else if c == '4' {
            4
        } else if c == '5' {
            5
        } else if c == '6' {
            6
        } else if c == '7' {
            7
        } else if c == '8' {
            8
        } else {
            9
        };
        proof {
            assert(digits_val(l@, a as int, j + 1 as int) == digits_val(l@, a as int, j as int) * 10
                + digit_val(l@[j as int]));
            lemma_digits_val_nonneg(l@, a as int, j as int);
        }
        if acc <= u32::MAX as u64 {
            acc = acc * 10 + d;
        }
        j += 1;
    }
    if acc <= u32::MAX as u64 {
        acc as u32
    } else {
        0
    }
}

/// Parse a hunk-header line, exactly as `spec_parse_hunk_header` describes.
pub fn parse_hunk_header(l: &Vec<char>) -> (r: Option<HunkHeader>)
    ensures
        r == spec_parse_hunk_header(l@),
{
    if !(l.len() >= 2 && l[0] == '@' && l[1] == '@') {
        return None;
    }
    let p1 = scan_ws(l, 2);
    if !(p1 < l.len() && l[p1] == '-') {
        return None;
    }
    let d1 = scan_digits(l, p1 + 1);
    if d1 == p1 + 1 {
        return None;
    }
    let old_start = parse_u32_run(l, p1 + 1, d1);
    let has_oc = d1 < l.len() && l[d1] == ',';
    let d2 = if has_oc {
        scan_digits(l, d1 + 1)
    } else {
        d1
    };
    if has_oc && d2 == d1 + 1 {
        return None;
    }
    let old_count = if has_oc {
        parse_u32_run(l, d1 + 1, d2)
    } else {
        1u32
    };
    let p2 = scan_ws(l, d2);
    if !(p2 < l.len() && l[p2] == '+') {
        return None;
    }
    let d3 = scan_digits(l, p2 + 1);
    if d3 == p2 + 1 {
        return None;
    }
    let new_start = parse_u32_run(l, p2 + 1, d3);
    let has_nc = d3 < l.len() && l[d3] == ',';
    let d4 = if has_nc {
        scan_digits(l, d3 + 1)
    } else {
        d3
    };
    if has_nc && d4 == d3 + 1 {
        return None;
    }
    let new_count = if has_nc {
        parse_u32_run(l, d3 + 1, d4)
    } else {
        1u32
    };
    let p3 = scan_ws(l, d4);
    if p3 < l.len() && p3 + 1 < l.len() && l[p3] == '@' && l[p3 + 1] == '@' {
        Some(HunkHeader { old_start, old_count, new_start, new_count })
    } else {
        None
    }
}

/// Classify one diff line, exactly as `classify` describes.
pub fn classify_line(l: &Vec<char>) -> (k: LineClass)
    ensures
        k == classify(l@),
{
    if is_file_header_line(l) {
        return LineClass::FileHeader;
    }
    if parse_hunk_header(l).is_some() {
        return LineClass::HunkHeader;
    }
    let nn = vec![
        '\\', ' ', 'N', 'o', ' ', 'n', 'e', 'w', 'l', 'i', 'n', 'e', ' ', 'a', 't', ' ', 'e', 'n',
        'd', ' ', 'o', 'f', ' ', 'f', 'i', 'l', 'e',
    ];
    proof {
        assert(nn@ =~= no_newline_prefix());
    }
    if has_prefix(l, &nn) {
        return LineClass::NoNewlineMarker;
    }
    let nf = vec!['n', 'e', 'w', ' ', 'f', 'i', 'l', 'e'];
    proof {
        assert(nf@ =~= new_file_prefix());
    }
    if has_prefix(l, &nf) {
        return LineClass::StatusMarker(StatusKind::NewFile);
    }
    let df = vec!['d', 'e', 'l', 'e', 't', 'e', 'd', ' ', 'f', 'i', 'l', 'e'];
    proof {
        assert(df@ =~= deleted_file_prefix());
    }
    if has_prefix(l, &df) {
        return LineClass::StatusMarker(StatusKind::DeletedFile);
    }
    let rn = vec!['r', 'e', 'n', 'a', 'm', 'e', 'd'];
    proof {
        assert(rn@ =~= renamed_prefix());
    }
    if has_prefix(l, &rn) {
        return LineClass::StatusMarker(StatusKind::Renamed);
    }
    if l.len() > 0 && l[0] == '-' && !(l.len() > 1 && l[1] == '-') {
        return LineClass::Deletion;
    }
    if l.len() > 0 && l[0] == '+' && !(l.len() > 1 && l[1] == '+') {
        return LineClass::Addition;
    }
    if l.len() > 0 && l[0] == ' ' {
        return LineClass::Context;
    }
    if l.len() == 0 {
        return LineClass::Blank;
    }
    LineClass::Other
}

/// Mathematical view of an in-progress block builder.
#[verifier::ext_equal]
pub struct BuilderView {
    pub start_line: u32,
    pub end_line: u32,
    pub added_lines: Seq<u32>,
    pub changed_lines: Seq<u32>,
    pub deletion_groups: Seq<DeletionGroupView>,
    pub old_to_new: Seq<OldToNewMap>,
    pub has_additions: bool,
    pub has_deletions: bool,
    pub initialized: bool,
}

/// A builder with nothing accumulated.
pub open spec fn builder_empty() -> BuilderView {
    BuilderView {
        start_line: 0,
        end_line: 0,
        added_lines: Seq::empty(),
        changed_lines: Seq::empty(),
        deletion_groups: Seq::empty(),
        old_to_new: Seq::empty(),
        has_additions: false,
        has_deletions: false,
        initialized: false,
    }
}

/// Opening a block pins `start_line` to the first observed new-file line;
/// every observation moves `end_line`.
pub open spec fn builder_mark(b: BuilderView, line: u32) -> BuilderView {
    BuilderView {
        start_line: if b.initialized {
            b.start_line
        } else {
            line
        },
        end_line: line,
        added_lines: b.added_lines,
        changed_lines: b.changed_lines,
        deletion_groups: b.deletion_groups,
        old_to_new: b.old_to_new,
        has_additions: b.has_additions,
        has_deletions: b.has_deletions,
        initialized: true,
    }
}

/// Group a deleted line by anchor: append to the last group when it shares
/// the anchor, otherwise start a new group.
pub open spec fn builder_push_deletion(
    b: BuilderView,
    anchor: u32,
    content: Seq<char>,
    old_no: u32,
) -> BuilderView {
    let gs = b.deletion_groups;
    let gs2 = if gs.len() > 0 && gs.last().anchor_line == anchor {
        gs.update(
            gs.len() - 1,
            DeletionGroupView {
                anchor_line: anchor,
                old_lines: gs.last().old_lines.push(content),
                old_line_numbers: gs.last().old_line_numbers.push(old_no),
            },
        )
    } else {
        gs.push(
            DeletionGroupView {
                anchor_line: anchor,
                old_lines: seq![content],
                old_line_numbers: seq![old_no],
            },
        )
    };
    BuilderView {
        start_line: b.start_line,
        end_line: b.end_line,
        added_lines: b.added_lines,
        changed_lines: b.changed_lines,
        deletion_groups: gs2,
        old_to_new: b.old_to_new,
        has_additions: b.has_additions,
        has_deletions: b.has_deletions,
        initialized: b.initialized,
    }
}

/// A finished block, or `None` when the builder never opened or recorded
/// neither additions nor deletions.
pub open spec fn builder_finish(b: BuilderView) -> Option<ChangeBlockView> {
    if !b.initialized || (!b.has_additions && !b.has_deletions) {
        None
    } else {
        Some(
            ChangeBlockView {
                start_line: b.start_line,
                end_line: b.end_line,
                kind: if b.has_additions && b.has_deletions {
                    ChangeKind::Change
                } else if b.has_additions {
                    ChangeKind::Add
                } else {
                    ChangeKind::Delete
                },
                added_lines: b.added_lines,
                changed_lines: b.changed_lines,
                deletion_groups: b.deletion_groups,
                old_to_new: b.old_to_new,
            },
        )
    }
}

/// Append the builder's block to `blocks` when it finishes into one.
pub open spec fn emit(blocks: Seq<ChangeBlockView>, b: BuilderView) -> Seq<ChangeBlockView> {
    match builder_finish(b) {
        Some(bl) => blocks.push(bl),
        None => blocks,
    }
}

/// Advance a line counter; it saturates rather than wrapping, so parsing
/// never panics on pathological inputs.
pub open spec fn bump(n: u32) -> u32 {
    if n < u32::MAX {
        (n + 1) as u32
    } else {
        n
    }
}

/// The whole state of the hunk parser between lines.
#[verifier::ext_equal]
pub struct ParseState {
    /// A hunk header has been seen and its body is being consumed.
    pub in_hunk: bool,
    /// Old-file line number of the next unconsumed old-side line (1-indexed).
    pub old_ln: u32,
    /// New-file line number of the next unconsumed new-side line (1-indexed).
    pub new_ln: u32,
    /// A deletion was seen more recently than any context line.
    pub in_change_run: bool,
    pub builder: BuilderView,
    pub blocks: Seq<ChangeBlockView>,
}

pub open spec fn initial_state() -> ParseState {
    ParseState {
        in_hunk: false,
        old_ln: 0,
        new_ln: 0,
        in_change_run: false,
        builder: builder_empty(),
        blocks: Seq::empty(),
    }
}

/// One transition of the hunk parser, per the classification of `l`.
pub open spec fn parse_step(st: ParseState, l: Seq<char>) -> ParseState {
    let k = classify(l);
    if k is HunkHeader {
        let h = spec_parse_hunk_header(l)->0;
        ParseState {
            in_hunk: true,
            old_ln: h.old_start,
            new_ln: h.new_start,
            in_change_run: false,
            builder: builder_empty(),
            blocks: emit(st.blocks, st.builder),
        }
    } else if k is FileHeader {
        ParseState {
            in_hunk: false,
            old_ln: 0,
            new_ln: 0,
            in_change_run: false,
            builder: builder_empty(),
            blocks: emit(st.blocks, st.builder),
        }
    } else if !st.in_hunk {
        st
    } else if k is Deletion {
        let b1 = builder_mark(st.builder, st.new_ln);
        let b2 = builder_push_deletion(b1, st.new_ln, deletion_content(l), st.old_ln);
        ParseState {
            in_hunk: st.in_hunk,
            old_ln: bump(st.old_ln),
            new_ln: st.new_ln,
            in_change_run: true,
            builder: BuilderView {
                start_line: b2.start_line,
                end_line: b2.end_line,
                added_lines: b2.added_lines,
                changed_lines: b2.changed_lines,
                deletion_groups: b2.deletion_groups,
                old_to_new: b2.old_to_new.push(
                    OldToNewMap { old_line: st.old_ln, new_line: st.new_ln },
                ),
                has_additions: b2.has_additions,
                has_deletions: true,
                initialized: b2.initialized,
            },
            blocks: st.blocks,
        }
    } else if k is Addition {
        let b1 = builder_mark(st.builder, st.new_ln);
        ParseState {
            in_hunk: st.in_hunk,
            old_ln: st.old_ln,
            new_ln: bump(st.new_ln),
            in_change_run: st.in_change_run,
            builder: BuilderView {
                start_line: b1.start_line,
                end_line: b1.end_line,
                added_lines: b1.added_lines.push(st.new_ln),
                changed_lines: if st.in_change_run {
                    b1.changed_lines.push(st.new_ln)
                } else {
                    b1.changed_lines
                },
                deletion_groups: b1.deletion_groups,
                old_to_new: b1.old_to_new,
                has_additions: true,
                has_deletions: b1.has_deletions,
                initialized: b1.initialized,
            },
            blocks: st.blocks,
        }
    } else if k is Context || k is Blank {
        ParseState {
            in_hunk: st.in_hunk,
            old_ln: bump(st.old_ln),
            new_ln: bump(st.new_ln),
            in_change_run: false,
            builder: builder_empty(),
            blocks: emit(st.blocks, st.builder),
        }
    } else {
        st
    }
}

/// Run the parser over a sequence of lines.
pub open spec fn parse_run(st: ParseState, lines: Seq<Seq<char>>) -> ParseState
    decreases lines.len(),
{
    if lines.len() == 0 {
        st
    } else {
        parse_run(parse_step(st, lines[0]), lines.drop_first())
    }
}

/// The change blocks of a hunk stream: run the parser over all lines and
/// flush whatever block is still open at the end.
pub open spec fn spec_parse_patch(lines: Seq<Seq<char>>) -> Seq<ChangeBlockView> {
    let fin = parse_run(initial_state(), lines);
    emit(fin.blocks, fin.builder)
}

pub proof fn lemma_parse_run_snoc(st: ParseState, lines: Seq<Seq<char>>, l: Seq<char>)
    ensures
        parse_run(st, lines.push(l)) == parse_step(parse_run(st, lines), l),
    decreases lines.len(),
{
    if lines.len() == 0 {
        assert(lines.push(l)[0] == l);
        assert(lines.push(l).drop_first() =~= Seq::<Seq<char>>::empty());
        assert(parse_run(parse_step(st, l), Seq::<Seq<char>>::empty()) == parse_step(st, l));
        assert(parse_run(st, lines) == st);
    } else {
        assert(lines.push(l)[0] == lines[0]);
        assert(lines.push(l).drop_first() =~= lines.drop_first().push(l));
        lemma_parse_run_snoc(parse_step(st, lines[0]), lines.drop_first(), l);
    }
}

/// Accumulates one in-progress change block; flushed on every context line
/// and at hunk and file boundaries.
pub struct BlockBuilder {
    pub start_line: u32,
    pub end_line: u32,
    pub added_lines: Vec<u32>,
    pub changed_lines: Vec<u32>,
    pub deletion_groups: Vec<DeletionGroup>,
    pub old_to_new: Vec<OldToNewMap>,
    pub has_additions: bool,
    pub has_deletions: bool,
    pub initialized: bool,
}

impl DeepView for BlockBuilder {
    type V = BuilderView;

    open spec fn deep_view(&self) -> BuilderView {
        BuilderView {
            start_line: self.start_line,
            end_line: self.end_line,
            added_lines: self.added_lines@,
            changed_lines: self.changed_lines@,
            deletion_groups: self.deletion_groups.deep_view(),
            old_to_new: self.old_to_new@,
            has_additions: self.has_additions,
            has_deletions: self.has_deletions,
            initialized: self.initialized,
        }
    }
}

impl BlockBuilder {
    pub fn new() -> (b: BlockBuilder)
        ensures
            b.deep_view() == builder_empty(),
    {
        let b = BlockBuilder {
            start_line: 0,
            end_line: 0,
            added_lines: Vec::new(),
            changed_lines: Vec::new(),
            deletion_groups: Vec::new(),
            old_to_new: Vec::new(),
            has_additions: false,
            has_deletions: false,
            initialized: false,
        };
        proof {
            assert(b.deep_view() =~= builder_empty());
        }
        b
    }

    /// Open the block at `line` if it is not open yet; move its end to `line`.
    pub fn ensure_initialized(&mut self, line: u32)
        ensures
            final (self).deep_view() == builder_mark(old(self).deep_view(), line),
    {
        if !self.initialized {
            self.start_line = line;
            self.end_line = line;
            self.initialized = true;
        } else {
            self.end_line = line;
        }
        proof {
            assert(self.deep_view() =~= builder_mark(old(self).deep_view(), line));
        }
    }

    /// Record one deleted line under its anchor, extending the last group
    /// when the anchor repeats.
    pub fn push_deletion(&mut self, anchor_line: u32, old_line: String, old_line_number: u32)
        ensures
            final (self).deep_view() == builder_push_deletion(
                old(self).deep_view(),
                anchor_line,
                old_line@,
                old_line_number,
            ),
    {
        let n = self.deletion_groups.len();
        if n > 0 && self.deletion_groups[n - 1].anchor_line == anchor_line {
            let mut g = self.deletion_groups.pop().unwrap();
            g.old_lines.push(old_line);
            g.old_line_numbers.push(old_line_number);
            self.deletion_groups.push(g);
            proof {
                let gv = old(self).deep_view().deletion_groups;
                assert(self.deletion_groups.deep_view() =~~= gv.update(
                    gv.len() - 1,
                    DeletionGroupView {
                        anchor_line,
                        old_lines: gv.last().old_lines.push(old_line@),
                        old_line_numbers: gv.last().old_line_numbers.push(old_line_number),
                    },
                ));
                assert(self.deep_view() =~~= builder_push_deletion(
                    old(self).deep_view(),
                    anchor_line,
                    old_line@,
                    old_line_number,
                ));
            }
        } else {
            let g = DeletionGroup {
                anchor_line,
                old_lines: vec![old_line],
                old_line_numbers: vec![old_line_number],
            };
            self.deletion_groups.push(g);
            proof {
                let gv = old(self).deep_view().deletion_groups;
                assert(self.deletion_groups.deep_view() =~~= gv.push(
                    DeletionGroupView {
                        anchor_line,
                        old_lines: seq![old_line@],
                        old_line_numbers: seq![old_line_number],
                    },
                ));
                assert(self.deep_view() =~~= builder_push_deletion(
                    old(self).deep_view(),
                    anchor_line,
                    old_line@,
                    old_line_number,
                ));
            }
        }
    }

    /// Turn the builder into a block, or `None` when nothing was recorded.
    pub fn into_change_block(self) -> (r: Option<ChangeBlock>)
        ensures
            r.deep_view() == builder_finish(self.deep_view()),
    {
        if !self.initialized || (!self.has_additions && !self.has_deletions) {
            return None;
        }
        let kind = if self.has_additions && self.has_deletions {
            ChangeKind::Change
        } else if self.has_additions {
            ChangeKind::Add
        } else {
            ChangeKind::Delete
        };
        let cb = ChangeBlock {
            start_line: self.start_line,
            end_line: self.end_line,
            kind,
            added_lines: self.added_lines,
            changed_lines: self.changed_lines,
            deletion_groups: self.deletion_groups,
            old_to_new: self.old_to_new,
        };
        proof {
            assert(cb.deep_view() =~= builder_finish(self.deep_view())->0);
        }
        Some(cb)
    }
}

fn bump_counter(n: u32) -> (r: u32)
    ensures
        r == bump(n),
{
    if n < u32::MAX {
        n + 1
    } else {
        n
    }
}

/// Flush the builder: emit its block, if it has one, onto `blocks`.
fn flush_builder(blocks: &mut Vec<ChangeBlock>, b: BlockBuilder)
    ensures
        final (blocks).deep_view() == emit(old(blocks).deep_view(), b.deep_view()),
{
    let ghost pre = blocks.deep_view();
    if let Some(cb) = b.into_change_block() {
        proof {
            crate::text::lemma_deep_view_push(blocks@, cb);
        }
        blocks.push(cb);
        proof {
            assert(blocks.deep_view() =~= pre.push(cb.deep_view()));
        }
    }
}

/// Assemble the parser state from the exec-level pieces.
pub open spec fn machine_state(
    in_hunk: bool,
    old_ln: u32,
    new_ln: u32,
    in_run: bool,
    builder: BuilderView,
    blocks: Seq<ChangeBlockView>,
) -> ParseState {
    ParseState { in_hunk, old_ln, new_ln, in_change_run: in_run, builder, blocks }
}

/// Run the block-building machine over `lines[from..to]`.
pub(crate) fn run_patch_machine(lines: &Vec<Vec<char>>, from: usize, to: usize) -> (blocks: Vec<
    ChangeBlock,
>)
    requires
        from <= to <= lines@.len(),
    ensures
        blocks.deep_view() == spec_parse_patch(lines.deep_view().subrange(from as int, to as int)),
{
    let ghost section = lines.deep_view().subrange(from as int, to as int);
    let mut in_hunk = false;
    let mut old_ln: u32 = 0;
    let mut new_ln: u32 = 0;
    let mut in_run = false;
    let mut builder = BlockBuilder::new();
    let mut blocks: Vec<ChangeBlock> = Vec::new();
    let mut i = from;
    proof {
        assert(section.take(0) =~= Seq::<Seq<char>>::empty());
        assert(blocks.deep_view() =~= Seq::<ChangeBlockView>::empty());
        assert(machine_state(in_hunk, old_ln, new_ln, in_run, builder.deep_view(), blocks.deep_view())
            =~= parse_run(initial_state(), section.take(0)));
    }
    while i < to
        invariant
            from <= i <= to <= lines@.len(),
            section == lines.deep_view().subrange(from as int, to as int),
            machine_state(in_hunk, old_ln, new_ln, in_run, builder.deep_view(), blocks.deep_view())
                == parse_run(initial_state(), section.take(i - from)),
        decreases to - i,
    {
        let line: &Vec<char> = &lines[i];
        let ghost lv = line@;
        let ghost pre = machine_state(
            in_hunk,
            old_ln,
            new_ln,
            in_run,
            builder.deep_view(),
            blocks.deep_view(),
        );
        proof {
            assert(section[i - from] =~= lv);
            lemma_parse_run_snoc(initial_state(), section.take(i - from), section[i - from]);
            assert(section.take(i - from + 1) =~= section.take(i - from).push(section[i - from]));
        }
        let k = classify_line(line);
        match k {
            LineClass::HunkHeader => {
                let h = parse_hunk_header(line).unwrap();
                let b = builder;
                builder = BlockBuilder::new();
                flush_builder(&mut blocks, b);
                in_hunk = true;
                old_ln = h.old_start;
                new_ln = h.new_start;
                in_run = false;
            },
            LineClass::FileHeader => {
                let b = builder;
                builder = BlockBuilder::new();
                flush_builder(&mut blocks, b);
                in_hunk = false;
                old_ln = 0;
                new_ln = 0;
                in_run = false;
            },
            LineClass::Deletion => {
                if in_hunk {
                    let content_chars = copy_range(line, 1, line.len());
                    let content = chars_to_string(&content_chars);
                    proof {
                        assert(content@ =~= deletion_content(lv));
                    }
                    builder.ensure_initialized(new_ln);
                    builder.push_deletion(new_ln, content, old_ln);
                    builder.old_to_new.push(OldToNewMap { old_line: old_ln, new_line: new_ln });
                    builder.has_deletions = true;
                    in_run = true;
                    old_ln = bump_counter(old_ln);
                }
            },
            LineClass::Addition => {
                if in_hunk {
                    builder.ensure_initialized(new_ln);
                    builder.added_lines.push(new_ln);
                    if in_run {
                        builder.changed_lines.push(new_ln);
                    }
                    builder.has_additions = true;
                    new_ln = bump_counter(new_ln);
                }
            },
            LineClass::Context | LineClass::Blank => {
                if in_hunk {
                    let b = builder;
                    builder = BlockBuilder::new();
                    flush_builder(&mut blocks, b);
                    in_run = false;
                    old_ln = bump_counter(old_ln);
                    new_ln = bump_counter(new_ln);
                }
            },
            _ => {},
        }
        proof {
            assert(machine_state(
                in_hunk,
                old_ln,
                new_ln,
                in_run,
                builder.deep_view(),
                blocks.deep_view(),
            ) =~= parse_step(pre, lv));
        }
        i += 1;
    }
    proof {
        assert(section.take(to - from) =~= section);
    }
    let b = builder;
    flush_builder(&mut blocks, b);
    blocks
}

/// Parse a unified diff patch into contiguous change blocks (no context
/// lines). The result is exactly `spec_parse_patch` of the patch's lines.
pub fn parse_patch(patch: &str) -> (blocks: Vec<ChangeBlock>)
    ensures
        blocks.deep_view() == spec_parse_patch(spec_lines(patch@)),
        forall|i: int|
            0 <= i < blocks.deep_view().len() ==> crate::diff::types::block_wf(
                #[trigger] blocks.deep_view()[i],
            ),
{
    let chars = str_chars(patch);
    let lines = split_lines(&chars);
    let n = lines.len();
    let blocks = run_patch_machine(&lines, 0, n);
    proof {
        assert(lines.deep_view().subrange(0, n as int) =~= lines.deep_view());
        crate::diff::lemmas::lemma_parse_patch_wf(spec_lines(patch@));
    }
    blocks
}

} // verus!
