//! Edits by unified diff.

use octos_agent::codec::{parse_json, render_json};
use octos_agent::diff::{find_match, parse_hunk_header, parse_unified_diff};
use octos_agent::diff_edit::{DiffEditTool, EditReport, ExpectedVersionPolicy, PreparedEdit};
use octos_agent::tool::{FileAccessMode, Refusal, ToolResult};

fn prepare(local_edit: bool, path: &str, diff: &str) -> Result<PreparedEdit, ToolResult> {
    let found: Result<String, Refusal> = Ok(format!("/ws/{path}"));
    DiffEditTool::new("/ws")
        .with_local_edit_enabled(local_edit)
        .prepare(false, path, &found, diff)
}

fn ready(local_edit: bool, path: &str, diff: &str) -> PreparedEdit {
    match prepare(local_edit, path, diff) {
        Ok(edit) => edit,
        Err(result) => panic!("{}", result.output),
    }
}

fn meta(result: &ToolResult, key: &str) -> String {
    let meta = result.structured_metadata.as_ref().expect("metadata");
    render_json(meta.get(key).expect("member"))
}

#[test]
fn local_edit_identical_diff_is_no_change() {
    let edit = ready(true, "same.txt", "@@ -1 +1 @@\n-same\n+same\n");
    assert_eq!(edit.policy, ExpectedVersionPolicy::OptionalNoChange);
    assert_eq!(edit.transform(b"same\n").unwrap(), "same\n");
    let observed = parse_json(r#"{"outcome": "no_change", "file_modified": false}"#).unwrap();
    let result = edit.no_change("same.txt", "sha256:abc", observed);
    assert!(result.success, "{}", result.output);
    assert!(result.file_modified.is_none());
    assert_eq!(meta(&result, "outcome"), "\"no_change\"");
    assert_eq!(meta(&result, "hunk_count"), "1");
    assert_eq!(meta(&result, "file_modified"), "false");
    assert_eq!(
        result.output,
        "[no_change] path=same.txt matcher=diff_hunks hunks=1 current=sha256:abc"
    );
}

#[test]
fn local_edit_diff_success_reports_hunks_and_final_diff() {
    let edit = ready(true, "file.txt", "@@ -1 +1 @@\n-old\n+new\n");
    assert_eq!(edit.transform(b"old\n").unwrap(), "new\n");
    let report = EditReport {
        safe_path: "file.txt".to_string(),
        final_label: "confirmed".to_string(),
        formatter_label: "none".to_string(),
        metadata: parse_json(r#"{"outcome": "modified", "final_state": "confirmed"}"#).unwrap(),
    };
    let result = edit.done("file.txt", Some(report), None);
    assert!(result.success, "{}", result.output);
    assert_eq!(
        result.output,
        "Applied 1 hunk(s) to file.txt: final=confirmed, formatter=none"
    );
    assert_eq!(result.file_modified.as_deref(), Some("/ws/file.txt"));
    assert_eq!(meta(&result, "outcome"), "\"modified\"");
    assert_eq!(meta(&result, "matcher"), "\"diff_hunks\"");
    assert_eq!(meta(&result, "hunk_count"), "1");
    assert_eq!(meta(&result, "final_state"), "\"confirmed\"");
}

#[test]
fn should_reject_ambiguous_diff_context_without_writing() {
    let edit = ready(false, "duplicate.txt", "@@ -1 +1 @@\n-same\n+changed\n");
    assert_eq!(edit.policy, ExpectedVersionPolicy::Optional);
    let error = edit
        .transform(b"same\nkeep\nsame\nkeep\n")
        .expect_err("ambiguous context must be rejected");
    assert!(error.contains("ambiguous"), "{error}");
}

#[test]
fn formatter_notes_follow_the_plain_answer() {
    let edit = ready(false, "lib.rs", "@@ -1 +1 @@\n-a\n+b\n");
    let result = edit.done("lib.rs", None, Some(" (formatted with rustfmt)".to_string()));
    assert_eq!(
        result.output,
        "Applied 1 hunk(s) to lib.rs (formatted with rustfmt)"
    );
    assert!(result.structured_metadata.is_none());
}

#[test]
fn calls_are_refused_before_any_file_is_read() {
    let found: Result<String, Refusal> = Ok("/ws/a".to_string());
    let read_only = DiffEditTool::new("/ws").with_file_access(FileAccessMode::ReadOnly);
    let refused = read_only
        .prepare(false, "a", &found, "@@ -1 +1 @@\n-a\n+b\n")
        .unwrap_err();
    assert!(refused.output.contains("read-only"), "{}", refused.output);

    let outside = DiffEditTool::new("/ws")
        .prepare(false, "../a", &Err(Refusal::Workspace), "@@ -1 +1 @@\n-a\n+b\n")
        .unwrap_err();
    assert_eq!(outside.output, "Path outside working directory: ../a");

    assert_eq!(
        prepare(false, "a", "no hunks here").unwrap_err().output,
        "No hunks found in diff"
    );
    assert!(prepare(false, "a", "@@ nonsense @@\n")
        .unwrap_err()
        .output
        .starts_with("Failed to parse diff: "));
}

#[test]
fn bytes_that_are_no_text_are_not_edited() {
    let edit = ready(false, "bin", "@@ -1 +1 @@\n-a\n+b\n");
    assert_eq!(
        edit.transform(&[0x61, 0xff]).unwrap_err(),
        "File is not valid UTF-8 and cannot be edited"
    );
    assert_eq!(edit.transform("a\n".as_bytes()).unwrap(), "b\n");
}

#[test]
fn hunk_headers_give_their_line() {
    assert_eq!(parse_hunk_header("@@ -12,3 +14,4 @@ fn main"), Ok(12));
    assert_eq!(parse_hunk_header("@@ -7 +7 @@"), Ok(7));
    assert!(parse_hunk_header("@@ -x +7 @@").is_err());
    assert!(parse_hunk_header("@@ -7").is_err());
    assert!(parse_unified_diff("").unwrap().is_empty());
}

#[test]
fn a_place_is_found_where_the_lines_stand_once() {
    let lines: Vec<String> = ["a", "b", "c"].iter().map(|s| s.to_string()).collect();
    assert_eq!(find_match(&lines, &vec!["b".to_string()], 0), Ok(1));
    assert!(find_match(&lines, &vec!["z".to_string()], 0).is_err());
}
