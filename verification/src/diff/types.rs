//! The structured results of parsing a diff: change blocks, deletion groups
//! and old-to-new line mappings, together with their mathematical views and
//! well-formedness conditions.

use vstd::prelude::*;

verus! {

/// Type of change in a change block.
#[derive(Debug, Clone, Copy, PartialEq, Eq, Structural)]
pub enum ChangeKind {
    /// Lines only in the new version (additions).
    Add,
    /// Lines only in the old version (deletions).
    Delete,
    /// Lines modified (both additions and deletions).
    Change,
}

/// One fact per deleted line: the old-file line number and the new-file line
/// (anchor) it maps to.
#[derive(Debug, Clone, Copy, PartialEq, Eq, Structural)]
pub struct OldToNewMap {
    pub old_line: u32,
    pub new_line: u32,
}

impl View for OldToNewMap {
    type V = OldToNewMap;

    open spec fn view(&self) -> OldToNewMap {
        *self
    }
}

impl DeepView for OldToNewMap {
    type V = OldToNewMap;

    open spec fn deep_view(&self) -> OldToNewMap {
        *self
    }
}

/// A maximal run of deleted lines sharing one anchor in the new file.
#[derive(Debug, Clone, PartialEq)]
pub struct DeletionGroup {
    /// Line number in the new file where the deletion should be anchored (1-indexed).
    pub anchor_line: u32,
    /// Deleted content lines.
    pub old_lines: Vec<String>,
    /// Old file line numbers corresponding to `old_lines`.
    pub old_line_numbers: Vec<u32>,
}

/// Mathematical view of a `DeletionGroup`.
#[verifier::ext_equal]
pub struct DeletionGroupView {
    pub anchor_line: u32,
    pub old_lines: Seq<Seq<char>>,
    pub old_line_numbers: Seq<u32>,
}

impl DeepView for DeletionGroup {
    type V = DeletionGroupView;

    open spec fn deep_view(&self) -> DeletionGroupView {
        DeletionGroupView {
            anchor_line: self.anchor_line,
            old_lines: self.old_lines.deep_view(),
            old_line_numbers: self.old_line_numbers@,
        }
    }
}

/// A contiguous block of added and/or deleted lines with no intervening
/// context line, scoped to one hunk.
#[derive(Debug, Clone, PartialEq)]
pub struct ChangeBlock {
    /// Line number in the new file where this block starts (1-indexed).
    pub start_line: u32,
    /// Line number in the new file where this block ends (1-indexed).
    pub end_line: u32,
    /// Type of change in this block.
    pub kind: ChangeKind,
    /// Line numbers in the new file that were added (including replacements) (1-indexed).
    pub added_lines: Vec<u32>,
    /// Line numbers in the new file that replace deletions (subset of `added_lines`).
    pub changed_lines: Vec<u32>,
    /// Grouped deletions with anchors for rendering virtual lines.
    pub deletion_groups: Vec<DeletionGroup>,
    /// Mapping from old line numbers to new anchor lines (for comments on the old side).
    pub old_to_new: Vec<OldToNewMap>,
}

/// Mathematical view of a `ChangeBlock`.
#[verifier::ext_equal]
pub struct ChangeBlockView {
    pub start_line: u32,
    pub end_line: u32,
    pub kind: ChangeKind,
    pub added_lines: Seq<u32>,
    pub changed_lines: Seq<u32>,
    pub deletion_groups: Seq<DeletionGroupView>,
    pub old_to_new: Seq<OldToNewMap>,
}

impl DeepView for ChangeBlock {
    type V = ChangeBlockView;

    open spec fn deep_view(&self) -> ChangeBlockView {
        ChangeBlockView {
            start_line: self.start_line,
            end_line: self.end_line,
            kind: self.kind,
            added_lines: self.added_lines@,
            changed_lines: self.changed_lines@,
            deletion_groups: self.deletion_groups.deep_view(),
            old_to_new: self.old_to_new@,
        }
    }
}

/// A deletion group is well formed: its two parallel vectors have the same
/// length, and it records at least one deleted line.
pub open spec fn group_wf(g: DeletionGroupView) -> bool {
    g.old_lines.len() == g.old_line_numbers.len() && g.old_lines.len() > 0
}

/// Total number of deleted lines recorded across a list of deletion groups.
pub open spec fn groups_total_deletions(gs: Seq<DeletionGroupView>) -> int
    decreases gs.len(),
{
    if gs.len() == 0 {
        0
    } else {
        groups_total_deletions(gs.drop_last()) + gs.last().old_lines.len()
    }
}

/// Well-formedness of an emitted change block: the kind mirrors which sides
/// are present, changed lines are a subset of added lines, the flat
/// old-to-new log covers exactly the grouped deletions, the bounds are
/// ordered, every group is well formed, and no two adjacent groups share an
/// anchor.
pub open spec fn block_wf(b: ChangeBlockView) -> bool {
    &&& (b.kind is Add <==> b.added_lines.len() > 0 && b.deletion_groups.len() == 0)
    &&& (b.kind is Delete <==> b.added_lines.len() == 0 && b.deletion_groups.len() > 0)
    &&& (b.kind is Change <==> b.added_lines.len() > 0 && b.deletion_groups.len() > 0)
    &&& forall|i: int|
        0 <= i < b.changed_lines.len() ==> b.added_lines.contains(#[trigger] b.changed_lines[i])
    &&& b.old_to_new.len() == groups_total_deletions(b.deletion_groups)
    &&& b.start_line <= b.end_line
    &&& forall|i: int| 0 <= i < b.deletion_groups.len() ==> group_wf(#[trigger] b.deletion_groups[i])
    &&& forall|i: int|
        0 <= i && i + 1 < b.deletion_groups.len() ==> (#[trigger] b.deletion_groups[i]).anchor_line
            != b.deletion_groups[i + 1].anchor_line
}

} // verus!
