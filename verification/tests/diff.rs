//! Parsing unified diffs and applying them.

use octos_agent::diff::{apply_hunks, parse_unified_diff};

#[test]
fn test_parse_simple_diff() {
    let diff = "@@ -1,3 +1,3 @@\n line1\n-line2\n+line2_modified\n line3";
    let hunks = parse_unified_diff(diff).unwrap();
    assert_eq!(hunks.len(), 1);
    assert_eq!(hunks[0].old_start, 1);
    assert_eq!(hunks[0].lines.len(), 4); // context + remove + add + context
}

#[test]
fn test_apply_simple_replacement() {
    let content = "line1\nline2\nline3\n";
    let diff = "@@ -1,3 +1,3 @@\n line1\n-line2\n+line2_new\n line3\n";
    let hunks = parse_unified_diff(diff).unwrap();
    let result = apply_hunks(content, &hunks).unwrap();
    assert_eq!(result, "line1\nline2_new\nline3\n");
}

#[test]
fn test_apply_insertion() {
    let content = "a\nb\n";
    let diff = "@@ -1,2 +1,3 @@\n a\n+inserted\n b\n";
    let hunks = parse_unified_diff(diff).unwrap();
    let result = apply_hunks(content, &hunks).unwrap();
    assert_eq!(result, "a\ninserted\nb\n");
}

#[test]
fn test_apply_deletion() {
    let content = "a\ndelete_me\nb\n";
    let diff = "@@ -1,3 +1,2 @@\n a\n-delete_me\n b\n";
    let hunks = parse_unified_diff(diff).unwrap();
    let result = apply_hunks(content, &hunks).unwrap();
    assert_eq!(result, "a\nb\n");
}

#[test]
fn test_fuzzy_match_offset() {
    let content = "extra\nline1\nline2\nline3\n";
    let diff = "@@ -1,3 +1,3 @@\n line1\n-line2\n+line2_fuzzy\n line3\n";
    let hunks = parse_unified_diff(diff).unwrap();
    let result = apply_hunks(content, &hunks).unwrap();
    assert_eq!(result, "extra\nline1\nline2_fuzzy\nline3\n");
}

#[test]
fn test_multiple_hunks() {
    let content = "a\nb\nc\nd\ne\nf\n";
    let diff = "@@ -1,2 +1,2 @@\n-a\n+A\n b\n@@ -5,2 +5,2 @@\n-e\n+E\n f\n";
    let hunks = parse_unified_diff(diff).unwrap();
    assert_eq!(hunks.len(), 2);
    let result = apply_hunks(content, &hunks).unwrap();
    assert_eq!(result, "A\nb\nc\nd\nE\nf\n");
}

#[test]
fn test_overlapping_hunks_rejected() {
    let content = "a\nb\nc\nd\ne\n";
    let diff = "@@ -1,3 +1,3 @@\n-a\n+A\n b\n c\n@@ -2,3 +2,3 @@\n-b\n+B\n c\n d\n";
    let hunks = parse_unified_diff(diff).unwrap();
    assert_eq!(hunks.len(), 2);
    let result = apply_hunks(content, &hunks);
    assert!(result.is_err());
    let err_msg = result.unwrap_err();
    assert!(
        err_msg.contains("overlapping hunks"),
        "expected overlapping hunks error, got: {err_msg}"
    );
}

#[test]
fn the_order_of_hunks_is_no_matter() {
    let content = "a\nb\nc\nd\ne\nf\n";
    let diff = "@@ -1,1 +1,1 @@\n-a\n+A\n@@ -3,1 +3,2 @@\n-c\n+C\n+cc\n@@ -6,1 +7,1 @@\n-f\n+F\n";
    let hunks = parse_unified_diff(diff).unwrap();
    assert_eq!(apply_hunks(content, &hunks).unwrap(), "A\nb\nC\ncc\nd\ne\nF\n");
    let other = "@@ -6,1 +7,1 @@\n-f\n+F\n@@ -1,1 +1,1 @@\n-a\n+A\n@@ -3,1 +3,2 @@\n-c\n+C\n+cc\n";
    let hunks = parse_unified_diff(other).unwrap();
    assert_eq!(apply_hunks(content, &hunks).unwrap(), "A\nb\nC\ncc\nd\ne\nF\n");
}
