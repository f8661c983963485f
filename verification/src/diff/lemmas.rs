//! Laws of the hunk parser, proved once and for all over the parser's
//! mathematical model: every emitted block is well formed, and a hunk stream
//! without addition or deletion lines yields no blocks.

use vstd::prelude::*;

use crate::diff::parser::{
    builder_empty, builder_finish, builder_mark, builder_push_deletion, bump, classify, emit,
    initial_state, parse_run, parse_step, spec_parse_patch, BuilderView, LineClass, ParseState,
};
use crate::diff::types::{block_wf, group_wf, groups_total_deletions, ChangeBlockView,
    DeletionGroupView};

verus! {

/// Internal consistency of an in-progress builder: the `has_*` flags mirror
/// the collected lines, the flat old-to-new log covers exactly the grouped
/// deletions, changed lines are a subset of added lines, groups are well
/// formed with distinct adjacent anchors, and nothing is collected before
/// the builder opens.
pub open spec fn builder_inv(b: BuilderView) -> bool {
    &&& (b.has_additions <==> b.added_lines.len() > 0)
    &&& (b.has_deletions <==> b.deletion_groups.len() > 0)
    &&& b.old_to_new.len() == groups_total_deletions(b.deletion_groups)
    &&& forall|i: int|
        0 <= i < b.changed_lines.len() ==> b.added_lines.contains(#[trigger] b.changed_lines[i])
    &&& forall|i: int| 0 <= i < b.deletion_groups.len() ==> group_wf(#[trigger] b.deletion_groups[i])
    &&& forall|i: int|
        0 <= i && i + 1 < b.deletion_groups.len() ==> (#[trigger] b.deletion_groups[i]).anchor_line
            != b.deletion_groups[i + 1].anchor_line
    &&& !b.initialized ==> b == builder_empty()
}

/// Invariant of the whole parser state: the builder is consistent, its
/// bounds are ordered and below the new-file counter, and every emitted
/// block is well formed.
pub open spec fn state_inv(st: ParseState) -> bool {
    &&& builder_inv(st.builder)
    &&& st.builder.initialized ==> st.builder.start_line <= st.builder.end_line <= st.new_ln
    &&& forall|i: int| 0 <= i < st.blocks.len() ==> block_wf(#[trigger] st.blocks[i])
}

proof fn lemma_total_push(gs: Seq<DeletionGroupView>, g: DeletionGroupView)
    ensures
        groups_total_deletions(gs.push(g)) == groups_total_deletions(gs) + g.old_lines.len(),
{
    assert(gs.push(g).drop_last() =~= gs);
    assert(gs.push(g).last() == g);
}

proof fn lemma_total_update_last(gs: Seq<DeletionGroupView>, g: DeletionGroupView)
    requires
        gs.len() > 0,
    ensures
        groups_total_deletions(gs.update(gs.len() - 1, g)) == groups_total_deletions(
            gs.drop_last(),
        ) + g.old_lines.len(),
{
    assert(gs.update(gs.len() - 1, g).drop_last() =~= gs.drop_last());
    assert(gs.update(gs.len() - 1, g).last() == g);
}

/// Emitting out of a consistent builder only adds well-formed blocks.
proof fn lemma_emit_wf(blocks: Seq<ChangeBlockView>, b: BuilderView)
    requires
        builder_inv(b),
        b.initialized ==> b.start_line <= b.end_line,
        forall|i: int| 0 <= i < blocks.len() ==> block_wf(#[trigger] blocks[i]),
    ensures
        forall|i: int| 0 <= i < emit(blocks, b).len() ==> block_wf(#[trigger] emit(blocks, b)[i]),
{
    match builder_finish(b) {
        Some(bl) => {
            assert(block_wf(bl));
            assert forall|i: int| 0 <= i < emit(blocks, b).len() implies block_wf(
                #[trigger] emit(blocks, b)[i],
            ) by {
                if i < blocks.len() {
                    assert(emit(blocks, b)[i] == blocks[i]);
                }
            }
        },
        None => {},
    }
}

/// One parser step preserves the state invariant.
proof fn lemma_step_inv(st: ParseState, l: Seq<char>)
    requires
        state_inv(st),
    ensures
        state_inv(parse_step(st, l)),
{
    let k = classify(l);
    let st2 = parse_step(st, l);
    if k is HunkHeader || k is FileHeader {
        lemma_emit_wf(st.blocks, st.builder);
    } else if !st.in_hunk {
    } else if k is Deletion {
        let b1 = builder_mark(st.builder, st.new_ln);
        let gs = b1.deletion_groups;
        let b2 = builder_push_deletion(b1, st.new_ln, l.drop_first(), st.old_ln);
        let gs2 = b2.deletion_groups;
        if gs.len() > 0 && gs.last().anchor_line == st.new_ln {
            let g2 = gs2[gs.len() - 1];
            lemma_total_update_last(gs, g2);
            assert(gs.drop_last().len() == gs.len() - 1);
            assert(groups_total_deletions(gs) == groups_total_deletions(gs.drop_last())
                + gs.last().old_lines.len());
            assert(group_wf(gs.last()));
            assert forall|i: int| 0 <= i < gs2.len() implies group_wf(#[trigger] gs2[i]) by {
                if i < gs.len() - 1 {
                    assert(gs2[i] == gs[i]);
                }
            }
            assert forall|i: int| 0 <= i && i + 1 < gs2.len() implies (#[trigger] gs2[i]).anchor_line
                != gs2[i + 1].anchor_line by {
                assert(gs2[i].anchor_line == gs[i].anchor_line);
                assert(gs2[i + 1].anchor_line == gs[i + 1].anchor_line);
            }
        } else {
            lemma_total_push(gs, gs2.last());
            assert forall|i: int| 0 <= i < gs2.len() implies group_wf(#[trigger] gs2[i]) by {
                if i < gs.len() {
                    assert(gs2[i] == gs[i]);
                }
            }
            assert forall|i: int| 0 <= i && i + 1 < gs2.len() implies (#[trigger] gs2[i]).anchor_line
                != gs2[i + 1].anchor_line by {
                if i + 1 < gs.len() {
                    assert(gs2[i] == gs[i]);
                    assert(gs2[i + 1] == gs[i + 1]);
                } else {
                    assert(gs2[i] == gs.last());
                    assert(gs2[i + 1].anchor_line == st.new_ln);
                }
            }
        }
    } else if k is Addition {
        let b1 = builder_mark(st.builder, st.new_ln);
        let added2 = b1.added_lines.push(st.new_ln);
        assert forall|i: int| 0 <= i < st2.builder.changed_lines.len() implies added2.contains(
            #[trigger] st2.builder.changed_lines[i],
        ) by {
            if i < b1.changed_lines.len() {
                let x = b1.changed_lines[i];
                let j = choose|j: int| 0 <= j < b1.added_lines.len() && b1.added_lines[j] == x;
                assert(added2[j] == x);
            } else {
                assert(st2.builder.changed_lines[i] == st.new_ln);
                assert(added2[added2.len() - 1] == st.new_ln);
            }
        }
    } else if k is Context || k is Blank {
        lemma_emit_wf(st.blocks, st.builder);
    }
}

/// Running the parser preserves the state invariant.
proof fn lemma_run_inv(st: ParseState, lines: Seq<Seq<char>>)
    requires
        state_inv(st),
    ensures
        state_inv(parse_run(st, lines)),
    decreases lines.len(),
{
    if lines.len() > 0 {
        lemma_step_inv(st, lines[0]);
        lemma_run_inv(parse_step(st, lines[0]), lines.drop_first());
    }
}

/// Every block that parsing a hunk stream emits is well formed.
pub proof fn lemma_parse_patch_wf(lines: Seq<Seq<char>>)
    ensures
        forall|i: int|
            0 <= i < spec_parse_patch(lines).len() ==> block_wf(#[trigger] spec_parse_patch(lines)[i]),
{
    lemma_run_inv(initial_state(), lines);
    let fin = parse_run(initial_state(), lines);
    lemma_emit_wf(fin.blocks, fin.builder);
}

/// A block's kind reflects which sides it holds: an `Add` block has no
/// deletion groups, a `Delete` block has no added lines, and a `Change`
/// block has both.
pub proof fn lemma_kind_reflects_sides(lines: Seq<Seq<char>>, i: int)
    requires
        0 <= i < spec_parse_patch(lines).len(),
    ensures
        spec_parse_patch(lines)[i].kind is Add ==> spec_parse_patch(lines)[i].deletion_groups.len()
            == 0,
        spec_parse_patch(lines)[i].kind is Delete ==> spec_parse_patch(lines)[i].added_lines.len()
            == 0,
        spec_parse_patch(lines)[i].kind is Change ==> spec_parse_patch(lines)[i].added_lines.len()
            > 0 && spec_parse_patch(lines)[i].deletion_groups.len() > 0,
{
    lemma_parse_patch_wf(lines);
}

/// Changed lines are always a subset of added lines.
pub proof fn lemma_changed_lines_subset(lines: Seq<Seq<char>>, i: int)
    requires
        0 <= i < spec_parse_patch(lines).len(),
    ensures
        forall|j: int|
            0 <= j < spec_parse_patch(lines)[i].changed_lines.len() ==> spec_parse_patch(
                lines,
            )[i].added_lines.contains(#[trigger] spec_parse_patch(lines)[i].changed_lines[j]),
{
    lemma_parse_patch_wf(lines);
}

/// A block's flat old-to-new log has exactly one entry per deleted line
/// across all of its deletion groups.
pub proof fn lemma_old_to_new_covers_deletions(lines: Seq<Seq<char>>, i: int)
    requires
        0 <= i < spec_parse_patch(lines).len(),
    ensures
        spec_parse_patch(lines)[i].old_to_new.len() == groups_total_deletions(
            spec_parse_patch(lines)[i].deletion_groups,
        ),
{
    lemma_parse_patch_wf(lines);
}

/// A hunk stream with no addition and no deletion lines yields no blocks.
proof fn lemma_run_no_changes(st: ParseState, lines: Seq<Seq<char>>)
    requires
        st.blocks.len() == 0,
        st.builder == builder_empty(),
        forall|i: int|
            0 <= i < lines.len() ==> classify(#[trigger] lines[i]) != LineClass::Addition
                && classify(lines[i]) != LineClass::Deletion,
    ensures
        parse_run(st, lines).blocks.len() == 0,
        parse_run(st, lines).builder == builder_empty(),
    decreases lines.len(),
{
    if lines.len() > 0 {
        let st2 = parse_step(st, lines[0]);
        assert(classify(lines[0]) != LineClass::Addition);
        assert(builder_finish(builder_empty()) is None);
        assert(st2.blocks.len() == 0 && st2.builder == builder_empty());
        assert forall|i: int|
            0 <= i < lines.drop_first().len() implies classify(
            #[trigger] lines.drop_first()[i],
        ) != LineClass::Addition && classify(lines.drop_first()[i]) != LineClass::Deletion by {
            assert(lines.drop_first()[i] == lines[i + 1]);
        }
        lemma_run_no_changes(st2, lines.drop_first());
    }
}

/// For all diff text whose lines hold no addition and no deletion, the
/// parse result holds no change blocks.
pub proof fn lemma_no_change_lines_no_blocks(lines: Seq<Seq<char>>)
    requires
        forall|i: int|
            0 <= i < lines.len() ==> classify(#[trigger] lines[i]) != LineClass::Addition
                && classify(lines[i]) != LineClass::Deletion,
    ensures
        spec_parse_patch(lines).len() == 0,
{
    lemma_run_no_changes(initial_state(), lines);
    assert(builder_finish(builder_empty()) is None);
}

} // verus!
