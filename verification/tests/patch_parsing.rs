use neo_reviewer::diff::parser::parse_patch;
use neo_reviewer::diff::types::ChangeKind;

#[test]
fn test_parse_simple_patch() {
    let patch = r#"@@ -1,3 +1,4 @@
 line1
+added line
 line2
 line3"#;

    let blocks = parse_patch(patch);
    assert_eq!(blocks.len(), 1);
    assert_eq!(blocks[0].kind, ChangeKind::Add);
    assert_eq!(blocks[0].start_line, 2);
    assert_eq!(blocks[0].end_line, 2);
    assert_eq!(blocks[0].added_lines, vec![2]);
}

#[test]
fn test_parse_deletion() {
    let patch = r#"@@ -1,4 +1,3 @@
 line1
-deleted line
 line2
 line3"#;

    let blocks = parse_patch(patch);
    assert_eq!(blocks.len(), 1);
    assert_eq!(blocks[0].kind, ChangeKind::Delete);
    assert_eq!(blocks[0].start_line, 2);
    assert_eq!(blocks[0].end_line, 2);
    assert_eq!(blocks[0].deletion_groups.len(), 1);
    assert_eq!(blocks[0].deletion_groups[0].anchor_line, 2);
    assert_eq!(blocks[0].deletion_groups[0].old_lines, vec!["deleted line"]);
}

#[test]
fn test_parse_change() {
    let patch = r#"@@ -1,3 +1,3 @@
 line1
-old line
+new line
 line3"#;

    let blocks = parse_patch(patch);
    assert_eq!(blocks.len(), 1);
    assert_eq!(blocks[0].kind, ChangeKind::Change);
    assert_eq!(blocks[0].start_line, 2);
    assert_eq!(blocks[0].end_line, 2);
    assert_eq!(blocks[0].added_lines, vec![2]);
    assert_eq!(blocks[0].changed_lines, vec![2]);
    assert_eq!(blocks[0].deletion_groups[0].anchor_line, 2);
    assert_eq!(blocks[0].old_to_new[0].old_line, 2);
    assert_eq!(blocks[0].old_to_new[0].new_line, 2);
}

#[test]
fn test_parse_multiple_blocks() {
    let patch = r#"@@ -1,3 +1,4 @@
 line1
+added
 line2
 line3
@@ -10,3 +11,2 @@
 line10
-removed
 line12"#;

    let blocks = parse_patch(patch);
    assert_eq!(blocks.len(), 2);
    assert_eq!(blocks[0].start_line, 2);
    assert_eq!(blocks[1].start_line, 12);
}

#[test]
fn test_parse_empty_patch() {
    let blocks = parse_patch("");
    assert!(blocks.is_empty());
}

#[test]
fn test_parse_context_only_skipped() {
    let patch = r#"@@ -1,3 +1,3 @@
 line1
 line2
 line3"#;

    let blocks = parse_patch(patch);
    assert!(blocks.is_empty());
}

#[test]
fn test_parse_no_newline_marker() {
    let patch = r#"@@ -1,2 +1,2 @@
-old line
+new line
\ No newline at end of file"#;

    let blocks = parse_patch(patch);
    assert_eq!(blocks.len(), 1);
    assert_eq!(blocks[0].kind, ChangeKind::Change);
}

#[test]
fn test_parse_single_line_block() {
    let patch = r#"@@ -1 +1 @@
-old
+new"#;

    let blocks = parse_patch(patch);
    assert_eq!(blocks.len(), 1);
    assert_eq!(blocks[0].start_line, 1);
    assert_eq!(blocks[0].end_line, 1);
}

#[test]
fn test_parse_large_line_numbers() {
    let patch = r#"@@ -10000,3 +10001,4 @@
 context
+added
 more context
 end"#;

    let blocks = parse_patch(patch);
    assert_eq!(blocks.len(), 1);
    assert_eq!(blocks[0].start_line, 10002);
}

#[test]
fn test_parse_multiple_additions() {
    let patch = r#"@@ -1,2 +1,5 @@
 line1
+added1
+added2
+added3
 line2"#;

    let blocks = parse_patch(patch);
    assert_eq!(blocks.len(), 1);
    assert_eq!(blocks[0].kind, ChangeKind::Add);
    assert_eq!(blocks[0].added_lines.len(), 3);
    assert_eq!(blocks[0].start_line, 2);
    assert_eq!(blocks[0].end_line, 4);
}

#[test]
fn test_parse_multiple_deletions() {
    let patch = r#"@@ -1,5 +1,2 @@
 line1
-del1
-del2
-del3
 line2"#;

    let blocks = parse_patch(patch);
    assert_eq!(blocks.len(), 1);
    assert_eq!(blocks[0].kind, ChangeKind::Delete);
    assert_eq!(blocks[0].deletion_groups.len(), 1);
    assert_eq!(blocks[0].deletion_groups[0].old_lines.len(), 3);
}

#[test]
fn test_parse_tracks_added_line_numbers() {
    let patch = r#"@@ -1,3 +1,5 @@
 line1
+added1
 line2
+added2
 line3"#;

    let blocks = parse_patch(patch);
    assert_eq!(blocks.len(), 2);
    assert_eq!(blocks[0].added_lines, vec![2]);
    assert_eq!(blocks[1].added_lines, vec![4]);
}

#[test]
fn test_parse_tracks_changed_lines_in_mixed_block() {
    let patch = r#"@@ -1,5 +1,6 @@
 line1
-old line
+new line
 line2
+added line
 line3"#;

    let blocks = parse_patch(patch);
    assert_eq!(blocks.len(), 2);
    assert_eq!(blocks[0].kind, ChangeKind::Change);
    assert_eq!(blocks[0].changed_lines, vec![2]);
    assert_eq!(blocks[1].kind, ChangeKind::Add);
    assert_eq!(blocks[1].added_lines, vec![4]);
}

#[test]
fn test_parse_tracks_deleted_positions() {
    let patch = r#"@@ -1,4 +1,2 @@
 line1
-deleted1
-deleted2
 line2"#;

    let blocks = parse_patch(patch);
    assert_eq!(blocks.len(), 1);
    assert_eq!(blocks[0].deletion_groups[0].anchor_line, 2);
    assert_eq!(blocks[0].deletion_groups[0].old_lines.len(), 2);
    assert_eq!(blocks[0].old_to_new.len(), 2);
}

#[test]
fn test_parse_splits_deletions_by_anchor() {
    let patch = r#"@@ -1,4 +1,4 @@
 line1
-old1
+new1
-old2
 line2"#;

    let blocks = parse_patch(patch);
    assert_eq!(blocks.len(), 1);
    assert_eq!(blocks[0].deletion_groups.len(), 2);
    assert_eq!(blocks[0].deletion_groups[0].anchor_line, 2);
    assert_eq!(blocks[0].deletion_groups[1].anchor_line, 3);
}
