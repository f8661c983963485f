use neo_reviewer::diff::splitter::parse_git_diff;
use neo_reviewer::github::types::FileStatus;

#[test]
fn test_parse_single_file_diff() {
    let diff = r#"diff --git a/test.lua b/test.lua
index abc123..def456 100644
--- a/test.lua
+++ b/test.lua
@@ -1,3 +1,4 @@
 line1
+added line
 line2
 line3"#;

    let files = parse_git_diff(diff);
    assert_eq!(files.len(), 1);
    assert_eq!(files[0].path, "test.lua");
    assert_eq!(files[0].status, FileStatus::Modified);
    assert_eq!(files[0].additions, 1);
    assert_eq!(files[0].deletions, 0);
    assert_eq!(files[0].change_blocks.len(), 1);
}

#[test]
fn test_parse_new_file() {
    let diff = r#"diff --git a/new.lua b/new.lua
new file mode 100644
index 0000000..abc123
--- /dev/null
+++ b/new.lua
@@ -0,0 +1,3 @@
+line1
+line2
+line3"#;

    let files = parse_git_diff(diff);
    assert_eq!(files.len(), 1);
    assert_eq!(files[0].path, "new.lua");
    assert_eq!(files[0].status, FileStatus::Added);
    assert_eq!(files[0].additions, 3);
}

#[test]
fn test_parse_deleted_file() {
    let diff = r#"diff --git a/old.lua b/old.lua
deleted file mode 100644
index abc123..0000000
--- a/old.lua
+++ /dev/null
@@ -1,3 +0,0 @@
-line1
-line2
-line3"#;

    let files = parse_git_diff(diff);
    assert_eq!(files.len(), 1);
    assert_eq!(files[0].path, "old.lua");
    assert_eq!(files[0].status, FileStatus::Deleted);
    assert_eq!(files[0].deletions, 3);
}

#[test]
fn test_parse_multiple_files() {
    let diff = r#"diff --git a/file1.lua b/file1.lua
index abc..def 100644
--- a/file1.lua
+++ b/file1.lua
@@ -1,2 +1,3 @@
 line1
+added
 line2
diff --git a/file2.rs b/file2.rs
index 123..456 100644
--- a/file2.rs
+++ b/file2.rs
@@ -1,3 +1,2 @@
 line1
-removed
 line3"#;

    let files = parse_git_diff(diff);
    assert_eq!(files.len(), 2);
    assert_eq!(files[0].path, "file1.lua");
    assert_eq!(files[1].path, "file2.rs");
}

#[test]
fn test_parse_empty_diff() {
    let files = parse_git_diff("");
    assert!(files.is_empty());
}

#[test]
fn test_parse_multiple_change_blocks() {
    let diff = r#"diff --git a/test.lua b/test.lua
index abc..def 100644
--- a/test.lua
+++ b/test.lua
@@ -1,3 +1,4 @@
 line1
+added1
 line2
 line3
@@ -10,3 +11,4 @@
 line10
+added2
 line11
 line12"#;

    let files = parse_git_diff(diff);
    assert_eq!(files.len(), 1);
    assert_eq!(files[0].change_blocks.len(), 2);
}

#[test]
fn test_renamed_only_file_omitted() {
    let diff = r#"diff --git a/before.lua b/after.lua
renamed from before.lua
renamed to after.lua"#;

    let files = parse_git_diff(diff);
    assert!(files.is_empty());
}

#[test]
fn test_renamed_file_with_changes_keeps_status() {
    let diff = r#"diff --git a/before.lua b/after.lua
renamed from before.lua
renamed to after.lua
@@ -1,2 +1,2 @@
-old
+new
 line2"#;

    let files = parse_git_diff(diff);
    assert_eq!(files.len(), 1);
    assert_eq!(files[0].path, "after.lua");
    assert_eq!(files[0].status, FileStatus::Renamed);
    assert_eq!(files[0].additions, 1);
    assert_eq!(files[0].deletions, 1);
}

#[test]
fn test_rename_captures_post_image_path() {
    let diff = r#"diff --git a/dir one/old name.txt b/dir two/new name.txt
renamed from dir one/old name.txt
renamed to dir two/new name.txt
@@ -1 +1 @@
-a
+b"#;

    let files = parse_git_diff(diff);
    assert_eq!(files.len(), 1);
    assert_eq!(files[0].path, "dir two/new name.txt");
}

#[test]
fn test_lone_plus_line_counts_as_addition() {
    let diff = "diff --git a/f b/f\n@@ -1,1 +1,2 @@\n line1\n+";

    let files = parse_git_diff(diff);
    assert_eq!(files.len(), 1);
    assert_eq!(files[0].additions, 1);
    assert_eq!(files[0].change_blocks.len(), 1);
    assert_eq!(files[0].change_blocks[0].added_lines, vec![2]);
}

#[test]
fn test_path_header_lines_not_counted() {
    let diff = r#"diff --git a/f b/f
--- a/f
+++ b/f
@@ -1,2 +1,2 @@
-x
+y
 line2"#;

    let files = parse_git_diff(diff);
    assert_eq!(files.len(), 1);
    assert_eq!(files[0].additions, 1);
    assert_eq!(files[0].deletions, 1);
}

#[test]
fn test_first_status_marker_wins() {
    let diff = r#"diff --git a/f b/f
deleted file mode 100644
new file mode 100644
@@ -1,1 +0,0 @@
-x"#;

    let files = parse_git_diff(diff);
    assert_eq!(files.len(), 1);
    assert_eq!(files[0].status, FileStatus::Deleted);
}

#[test]
fn test_status_markers_after_first_hunk_ignored() {
    let diff = r#"diff --git a/f b/f
@@ -1,2 +1,2 @@
-x
+y
 line2
new file mode 100644"#;

    let files = parse_git_diff(diff);
    assert_eq!(files.len(), 1);
    assert_eq!(files[0].status, FileStatus::Modified);
}
