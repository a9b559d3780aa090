//! Parsing patches and applying their hunks.

use octos_agent::patch::{apply_codex_hunks, parse_patch_envelope, PatchOp, UpdateHunk};

fn parse_update_hunks(patch: &str) -> Vec<UpdateHunk> {
    let mut ops = parse_patch_envelope(patch).expect("valid envelope");
    match ops.remove(0) {
        PatchOp::Update { hunks, .. } => hunks,
        other => panic!("expected Update, got {other:?}"),
    }
}

#[test]
fn should_parse_all_op_kinds_when_envelope_is_valid() {
    let patch = "*** Begin Patch\n\
                 *** Add File: hello.txt\n\
                 +Hello world\n\
                 *** Update File: src/app.py\n\
                 *** Move to: src/main.py\n\
                 @@ def greet():\n\
                 -print(\"Hi\")\n\
                 +print(\"Hello, world!\")\n\
                 *** Delete File: obsolete.txt\n\
                 *** End Patch\n";
    let ops = parse_patch_envelope(patch).expect("valid envelope");
    assert_eq!(ops.len(), 3);
    match &ops[0] {
        PatchOp::Add { path, content } => {
            assert_eq!(path, "hello.txt");
            assert_eq!(content, "Hello world");
        }
        other => panic!("expected Add, got {other:?}"),
    }
    match &ops[1] {
        PatchOp::Update {
            path,
            move_to,
            hunks,
        } => {
            assert_eq!(path, "src/app.py");
            assert_eq!(move_to.as_deref(), Some("src/main.py"));
            assert_eq!(hunks.len(), 1);
            assert_eq!(hunks[0].anchor.as_deref(), Some("def greet():"));
            assert_eq!(hunks[0].lines.len(), 2);
        }
        other => panic!("expected Update, got {other:?}"),
    }
    match &ops[2] {
        PatchOp::Delete { path } => assert_eq!(path, "obsolete.txt"),
        other => panic!("expected Delete, got {other:?}"),
    }
}

#[test]
fn should_reject_when_begin_marker_missing() {
    let err = parse_patch_envelope("*** Add File: a.txt\n+x\n*** End Patch\n")
        .expect_err("missing Begin Patch must be rejected");
    assert!(err.contains("*** Begin Patch"), "got: {err}");
}

#[test]
fn should_reject_when_end_marker_missing() {
    let err = parse_patch_envelope("*** Begin Patch\n*** Add File: a.txt\n+x\n")
        .expect_err("missing End Patch must be rejected");
    assert!(err.contains("*** End Patch"), "got: {err}");
}

#[test]
fn should_reject_when_content_follows_end_marker() {
    let err = parse_patch_envelope(
        "*** Begin Patch\n*** Add File: a.txt\n+x\n*** End Patch\nleftover\n",
    )
    .expect_err("content after End Patch must be rejected");
    assert!(err.contains("End Patch"), "got: {err}");
}

#[test]
fn should_reject_when_directive_unknown() {
    let err = parse_patch_envelope("*** Begin Patch\n*** Rename File: a.txt\n*** End Patch\n")
        .expect_err("unknown directive must be rejected");
    assert!(err.contains("Rename File"), "got: {err}");
}

#[test]
fn should_reject_when_move_to_outside_update_section() {
    let err = parse_patch_envelope(
        "*** Begin Patch\n*** Add File: a.txt\n*** Move to: b.txt\n+x\n*** End Patch\n",
    )
    .expect_err("Move to outside Update must be rejected");
    assert!(err.contains("Move to"), "got: {err}");
}

#[test]
fn should_reject_when_add_line_lacks_plus_prefix() {
    let err = parse_patch_envelope(
        "*** Begin Patch\n*** Add File: a.txt\nno prefix\n*** End Patch\n",
    )
    .expect_err("Add lines without '+' must be rejected");
    assert!(err.contains('+'), "got: {err}");
}

#[test]
fn should_reject_when_patch_has_no_sections() {
    let err = parse_patch_envelope("*** Begin Patch\n*** End Patch\n")
        .expect_err("empty patch must be rejected");
    assert!(err.contains("no file sections"), "got: {err}");
}

#[test]
fn should_reject_when_update_section_has_no_hunks_and_no_move() {
    let err = parse_patch_envelope("*** Begin Patch\n*** Update File: a.txt\n*** End Patch\n")
        .expect_err("Update without hunks or move must be rejected");
    assert!(err.contains("a.txt"), "got: {err}");
}

#[test]
fn should_treat_numeric_hunk_header_as_plain_separator() {
    let patch = "*** Begin Patch\n\
                 *** Update File: a.txt\n\
                 @@ -1,3 +1,3 @@\n\
                 -x\n\
                 +y\n\
                 @@ -10,3 +10,3 @@ fn main()\n\
                 -a\n\
                 +b\n\
                 *** End Patch\n";
    let ops = parse_patch_envelope(patch).expect("valid envelope");
    match &ops[0] {
        PatchOp::Update { hunks, .. } => {
            assert_eq!(hunks.len(), 2);
            assert_eq!(hunks[0].anchor, None);
            assert_eq!(hunks[1].anchor.as_deref(), Some("fn main()"));
        }
        other => panic!("expected Update, got {other:?}"),
    }
}

#[test]
fn should_reject_content_after_end_of_file_marker() {
    let err = parse_patch_envelope(
        "*** Begin Patch\n*** Update File: f\n@@\n+tail\n*** End of File\n+stray\n*** End Patch\n",
    )
    .expect_err("body line after '*** End of File' must be rejected");
    assert!(err.contains("line 6"), "got: {err}");
    assert!(err.contains("End of File"), "got: {err}");
    let err = parse_patch_envelope(
        "*** Begin Patch\n*** Update File: f\n@@\n+tail\n*** End of File\n@@ more\n-x\n+y\n*** End Patch\n",
    )
    .expect_err("new hunk after '*** End of File' must be rejected");
    assert!(err.contains("End of File"), "got: {err}");
}

#[test]
fn should_tolerate_blank_line_after_end_of_file_marker() {
    let hunks = parse_update_hunks(
        "*** Begin Patch\n*** Update File: f\n@@\n+tail\n*** End of File\n\n*** End Patch\n",
    );
    assert_eq!(hunks.len(), 1);
    assert!(hunks[0].at_eof);
    assert_eq!(
        hunks[0].lines.len(),
        1,
        "blank separator must not append a context line to the EOF hunk"
    );
}

#[test]
fn should_reject_hunk_when_same_block_repeats_without_unique_context() {
    let ops = parse_patch_envelope(
        "*** Begin Patch\n*** Update File: f\n@@\n-a\n+A1\n@@\n-a\n+A2\n*** End Patch\n",
    )
    .expect("valid envelope");
    let PatchOp::Update { hunks, .. } = &ops[0] else {
        panic!("expected Update");
    };
    let error = apply_codex_hunks("a\nb\na\nb\n", hunks)
        .expect_err("ambiguous context must fail closed");
    assert!(error.contains("ambiguous"), "{error}");
    assert!(error.contains("found 2 locations"), "{error}");
}

#[test]
fn should_locate_hunk_after_anchor_when_anchor_given() {
    let content = "fn one() {\n    x\n}\nfn two() {\n    x\n}\n";
    let ops = parse_patch_envelope(
        "*** Begin Patch\n*** Update File: f\n@@ fn two() {\n-    x\n+    y\n*** End Patch\n",
    )
    .expect("valid envelope");
    let PatchOp::Update { hunks, .. } = &ops[0] else {
        panic!("expected Update");
    };
    let out = apply_codex_hunks(content, hunks).expect("hunks apply");
    assert_eq!(out, "fn one() {\n    x\n}\nfn two() {\n    y\n}\n");
}

#[test]
fn should_append_at_eof_when_end_of_file_marker() {
    let ops = parse_patch_envelope(
        "*** Begin Patch\n*** Update File: f\n@@\n+c\n*** End of File\n*** End Patch\n",
    )
    .expect("valid envelope");
    let PatchOp::Update { hunks, .. } = &ops[0] else {
        panic!("expected Update");
    };
    assert!(hunks[0].at_eof);
    let out = apply_codex_hunks("a\nb\n", hunks).expect("hunks apply");
    assert_eq!(out, "a\nb\nc\n");
}

#[test]
fn should_error_with_hunk_number_when_context_not_found() {
    let ops = parse_patch_envelope(
        "*** Begin Patch\n*** Update File: f\n@@\n-not there\n+x\n*** End Patch\n",
    )
    .expect("valid envelope");
    let PatchOp::Update { hunks, .. } = &ops[0] else {
        panic!("expected Update");
    };
    let err = apply_codex_hunks("a\nb\n", hunks).expect_err("must fail to locate");
    assert!(err.contains("hunk 1"), "got: {err}");
    assert!(err.contains("not there"), "got: {err}");
}

#[test]
fn should_reject_pure_insertion_when_no_context_and_file_nonempty() {
    let hunks =
        parse_update_hunks("*** Begin Patch\n*** Update File: f\n+import os\n*** End Patch\n");
    let err =
        apply_codex_hunks("a\nb\n", &hunks).expect_err("ambiguous insertion must be rejected");
    assert!(err.contains("hunk 1 has no context lines"), "got: {err}");
    assert!(err.contains("@@ <anchor>"), "got: {err}");
    assert!(err.contains("End of File"), "got: {err}");
}

#[test]
fn should_insert_after_anchor_when_hunk_is_pure_insertion() {
    let hunks = parse_update_hunks(
        "*** Begin Patch\n*** Update File: f\n@@ two\n+two.5\n*** End Patch\n",
    );
    let out = apply_codex_hunks("one\ntwo\nthree\n", &hunks).expect("hunks apply");
    assert_eq!(out, "one\ntwo\ntwo.5\nthree\n");
}

#[test]
fn should_insert_at_start_when_pure_insertion_targets_empty_file() {
    let hunks = parse_update_hunks(
        "*** Begin Patch\n*** Update File: f\n@@\n+first\n+second\n*** End Patch\n",
    );
    let out = apply_codex_hunks("", &hunks).expect("hunks apply");
    assert_eq!(out, "first\nsecond");
}

#[test]
fn should_error_with_search_start_when_anchor_not_found() {
    let hunks = parse_update_hunks(
        "*** Begin Patch\n*** Update File: f\n@@\n-a\n+A\n@@ missing anchor\n-b\n+B\n*** End Patch\n",
    );
    let err = apply_codex_hunks("a\nb\n", &hunks).expect_err("anchor must not be found");
    assert!(err.contains("hunk 2"), "got: {err}");
    assert!(
        err.contains("context marker '@@ missing anchor' not found"),
        "got: {err}"
    );
    assert!(err.contains("searched from line 2"), "got: {err}");
}

#[test]
fn should_match_anchor_when_indentation_drifts() {
    let content = "class A:\n    def greet(self):\n        pass\n";
    let hunks = parse_update_hunks(
        "*** Begin Patch\n*** Update File: f\n@@ def greet(self):\n-        pass\n+        return 1\n*** End Patch\n",
    );
    let out = apply_codex_hunks(content, &hunks).expect("trimmed anchor fallback must match");
    assert_eq!(out, "class A:\n    def greet(self):\n        return 1\n");
}

#[test]
fn should_reject_ambiguous_hunk_context_without_modifying_content() {
    let content = "same\nkeep\nsame\nkeep\n";
    let hunks = parse_update_hunks(
        "*** Begin Patch\n*** Update File: f\n@@\n-same\n+changed\n*** End Patch\n",
    );
    let error =
        apply_codex_hunks(content, &hunks).expect_err("ambiguous context must be rejected");
    assert!(error.contains("ambiguous"), "{error}");
    assert_eq!(content, "same\nkeep\nsame\nkeep\n");
}
