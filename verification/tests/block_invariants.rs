use neo_reviewer::diff::parser::{parse_hunk_header, parse_patch, HunkHeader};
use neo_reviewer::diff::types::ChangeKind;

#[test]
fn no_change_lines_means_no_blocks() {
    let patch = "diff --git a/f b/f\nindex abc..def 100644\n--- a/f\n+++ b/f\n@@ -1,2 +1,2 @@\n line1\n line2\n\\ No newline at end of file";
    assert!(parse_patch(patch).is_empty());
}

#[test]
fn kind_reflects_which_sides_are_present() {
    let patch = "@@ -1,6 +1,6 @@\n a\n+add\n b\n-del\n c\n-old\n+new\n d";
    let blocks = parse_patch(patch);
    assert_eq!(blocks.len(), 3);
    assert_eq!(blocks[0].kind, ChangeKind::Add);
    assert!(blocks[0].deletion_groups.is_empty());
    assert_eq!(blocks[1].kind, ChangeKind::Delete);
    assert!(blocks[1].added_lines.is_empty());
    assert_eq!(blocks[2].kind, ChangeKind::Change);
    assert!(!blocks[2].added_lines.is_empty());
    assert!(!blocks[2].deletion_groups.is_empty());
}

#[test]
fn changed_lines_are_among_added_lines() {
    let patch = "@@ -1,6 +1,6 @@\n a\n-one\n-two\n+uno\n+dos\n+tres\n b";
    let blocks = parse_patch(patch);
    assert_eq!(blocks.len(), 1);
    for line in &blocks[0].changed_lines {
        assert!(blocks[0].added_lines.contains(line));
    }
}

#[test]
fn old_to_new_has_one_entry_per_deleted_line() {
    let patch = "@@ -1,8 +1,6 @@\n a\n-one\n-two\n+uno\n-three\n b\n-four\n c";
    let blocks = parse_patch(patch);
    let mut deleted = 0;
    let mut mapped = 0;
    for block in &blocks {
        for group in &block.deletion_groups {
            assert_eq!(group.old_lines.len(), group.old_line_numbers.len());
            deleted += group.old_lines.len();
        }
        mapped += block.old_to_new.len();
    }
    assert_eq!(mapped, deleted);
}

#[test]
fn parsing_twice_gives_identical_structure() {
    let patch = "@@ -1,5 +1,6 @@\n a\n-one\n+uno\n b\n+extra\n c";
    let first = parse_patch(patch);
    let second = parse_patch(patch);
    assert_eq!(first, second);
}

#[test]
fn adjacent_groups_never_share_an_anchor() {
    let patch = "@@ -1,6 +1,5 @@\n a\n-one\n-two\n+uno\n-three\n b";
    let blocks = parse_patch(patch);
    assert_eq!(blocks.len(), 1);
    let groups = &blocks[0].deletion_groups;
    assert_eq!(groups.len(), 2);
    for pair in groups.windows(2) {
        assert_ne!(pair[0].anchor_line, pair[1].anchor_line);
    }
}

#[test]
fn hunk_header_counts_default_to_one() {
    let line: Vec<char> = "@@ -3 +7 @@".chars().collect();
    let header = parse_hunk_header(&line);
    assert_eq!(
        header,
        Some(HunkHeader { old_start: 3, old_count: 1, new_start: 7, new_count: 1 })
    );
}

#[test]
fn hunk_header_reads_all_four_numbers() {
    let line: Vec<char> = "@@ -10,3 +11,4 @@ fn main()".chars().collect();
    let header = parse_hunk_header(&line);
    assert_eq!(
        header,
        Some(HunkHeader { old_start: 10, old_count: 3, new_start: 11, new_count: 4 })
    );
}

#[test]
fn malformed_hunk_header_is_inert() {
    let line: Vec<char> = "@@ -x +1 @@".chars().collect();
    assert_eq!(parse_hunk_header(&line), None);
    let blocks = parse_patch("@@ -x +1 @@\n+never in a hunk");
    assert!(blocks.is_empty());
}

#[test]
fn deletion_only_block_is_anchored_at_one_line() {
    let patch = "@@ -1,4 +1,2 @@\n a\n-one\n-two\n b";
    let blocks = parse_patch(patch);
    assert_eq!(blocks.len(), 1);
    assert_eq!(blocks[0].start_line, blocks[0].end_line);
    assert_eq!(blocks[0].start_line, 2);
}

#[test]
fn double_dash_line_is_not_a_deletion() {
    let patch = "@@ -1,2 +1,2 @@\n a\n--not a deletion\n b";
    let blocks = parse_patch(patch);
    assert!(blocks.is_empty());
}
