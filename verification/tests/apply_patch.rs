//! The patch engine, driven over a workspace that lives in memory.

use std::collections::BTreeMap;

use octos_agent::paths::{is_absolute, join_paths, place_of, same_place, Prefix};
use octos_agent::apply_patch::{
    begin_patch, open_patch, reject_unsafe_patch_path, resolve_patch_path, Action, ApplyPatchTool,
    DiskEntry, Event, FileRead, GuardFailure, OpKind, Overlay, PatchRequest, PathFacts, Run,
    SectionFacts, STALE_MUTATION_CODE,
};
use octos_agent::codec::render_json;
use octos_agent::diff_edit::DiffEditTool;
use octos_agent::json::Json;
use octos_agent::patch::{parse_patch_envelope, PatchOp};
use octos_agent::tool::{ConcurrencyClass, FileAccessMode, FilesystemScope, Refusal, ToolResult};

const ROOT: &str = "/ws";

#[derive(Default)]
struct Workspace {
    files: BTreeMap<String, String>,
    links: Vec<String>,
    locked: Vec<String>,
}

impl Workspace {
    fn with(files: &[(&str, &str)]) -> Workspace {
        let mut ws = Workspace::default();
        for (path, content) in files {
            ws.files.insert(at(path), content.to_string());
        }
        ws
    }

    fn read(&self, path: &str) -> Option<&str> {
        self.files.get(&at(path)).map(|s| s.as_str())
    }

    fn has(&self, path: &str) -> bool {
        self.files.contains_key(&at(path))
    }

    fn facts(&self, path: &str) -> PathFacts {
        let full = at(path);
        let entry = if self.links.contains(&full) {
            DiskEntry::Symlink
        } else if self.files.contains_key(&full) {
            DiskEntry::File
        } else {
            DiskEntry::Absent
        };
        let read = match self.files.get(&full) {
            Some(content) => FileRead::Text {
                content: content.clone(),
                version: version_of(content),
            },
            None => FileRead::Changed,
        };
        PathFacts {
            found: Ok(full),
            entry: Ok(entry),
            read,
        }
    }

    fn section_facts(&self, ops: &[PatchOp]) -> Vec<SectionFacts> {
        ops.iter()
            .map(|op| {
                let (source, dest) = match op {
                    PatchOp::Add { path, .. } => (path, path),
                    PatchOp::Delete { path } => (path, path),
                    PatchOp::Update { path, move_to, .. } => (path, move_to.as_ref().unwrap_or(path)),
                };
                SectionFacts {
                    source: self.facts(source),
                    dest: self.facts(dest),
                }
            })
            .collect()
    }

    fn perform(&mut self, action: &Action) -> Event {
        match action {
            Action::Rewrite {
                path,
                expected_content,
                content,
                ..
            } => {
                if self.links.contains(path) || self.files.get(path) != Some(expected_content) {
                    return Event::Mutation(Err(stale(path)));
                }
                self.files.insert(path.clone(), content.clone());
                Event::Mutation(Ok(()))
            }
            Action::MakeParents { path } => {
                let mut dir = path.as_str();
                while let Some(cut) = dir.rfind('/') {
                    dir = &dir[..cut];
                    if self.files.contains_key(dir) {
                        return Event::Parents(Err("Not a directory (os error 20)".to_string()));
                    }
                }
                Event::Parents(Ok(()))
            }
            Action::Create { path, content } => {
                self.files.insert(path.clone(), content.clone());
                Event::Mutation(Ok(()))
            }
            Action::Observe { path } => match self.files.get(path) {
                Some(content) => {
                    Event::Observed(Ok((content.clone().into_bytes(), version_of(content))))
                }
                None => Event::Observed(Err("No such file or directory (os error 2)".to_string())),
            },
            Action::Remove { path, version } => {
                if self.locked.contains(path) {
                    return Event::Mutation(Err(GuardFailure {
                        output: "Permission denied (os error 13)".to_string(),
                        error_code: None,
                        touched: false,
                    }));
                }
                match self.files.get(path) {
                    Some(content) if version_of(content) == *version => {
                        self.files.remove(path);
                        Event::Mutation(Ok(()))
                    }
                    _ => Event::Mutation(Err(stale(path))),
                }
            }
        }
    }

    fn drive(&mut self, run: Run) -> Run {
        let mut run = run;
        while let Some(action) = run.action() {
            let event = self.perform(&action);
            run = run.feed(&event);
        }
        run
    }

    fn apply(&mut self, patch: &str) -> ToolResult {
        let tool = ApplyPatchTool::new(ROOT);
        let patch = match tool.request(Some(patch.to_string()), None, None) {
            PatchRequest::Envelope(patch) => patch,
            PatchRequest::Refuse(result) => return result,
            PatchRequest::Unified { .. } => panic!("an envelope is no unified diff"),
        };
        let ops = match open_patch(&patch) {
            Ok(ops) => ops,
            Err(result) => return result,
        };
        match begin_patch(&ops, &self.section_facts(&ops), false) {
            Ok(run) => self.drive(run).report(),
            Err(result) => result,
        }
    }
}

fn at(path: &str) -> String {
    format!("{ROOT}/{path}")
}

fn version_of(content: &str) -> String {
    format!("v:{content}")
}

fn stale(path: &str) -> GuardFailure {
    GuardFailure {
        output: format!("{path} changed [stale_file_version]. Re-read it with read_file."),
        error_code: Some(STALE_MUTATION_CODE.to_string()),
        touched: false,
    }
}

fn meta<'a>(result: &'a ToolResult, key: &str) -> &'a Json {
    result
        .structured_metadata
        .as_ref()
        .expect("metadata")
        .get(key)
        .expect("member")
}

fn meta_text(result: &ToolResult, key: &str) -> String {
    render_json(meta(result, key))
}

#[test]
fn apply_patch_tool_is_exclusive() {
    let tool = ApplyPatchTool::new(ROOT);
    assert_eq!(tool.concurrency_class(), ConcurrencyClass::Exclusive);
    assert_eq!(tool.name(), "apply_patch");
    assert!(tool.tags().contains(&"fs".to_string()));
    assert!(tool.description().contains("*** Begin Patch"));
    assert!(tool.description().contains("*** End Patch"));
    assert!(tool.description().contains("*** Move to:"));
}

#[test]
fn diff_edit_tool_is_exclusive() {
    let tool = DiffEditTool::new(ROOT);
    assert_eq!(tool.concurrency_class(), ConcurrencyClass::Exclusive);
}

#[test]
fn should_refuse_when_file_changes_between_plan_and_apply() {
    let mut ws = Workspace::with(&[("planned.txt", "old\n")]);
    let ops = parse_patch_envelope(
        "*** Begin Patch\n*** Update File: planned.txt\n@@\n-old\n+new\n*** End Patch\n",
    )
    .unwrap();
    let run = match begin_patch(&ops, &ws.section_facts(&ops), false) {
        Ok(run) => run,
        Err(result) => panic!("{}", result.output),
    };

    ws.files.insert(at("planned.txt"), "external\n".to_string());
    let run = ws.drive(run);

    assert!(run.applied().is_empty());
    let failure = run.failure().as_ref().expect("stale plan must fail");
    assert!(failure.error.contains("[stale_file_version]"));
    assert!(failure.error.contains("Re-read it with read_file"));
    assert_eq!(failure.error_code.as_deref(), Some(STALE_MUTATION_CODE));
    assert_eq!(ws.read("planned.txt"), Some("external\n"));
}

#[test]
fn should_refuse_symlink_swap_between_plan_and_apply() {
    let mut ws = Workspace::with(&[("planned.txt", "old\n")]);
    let ops = parse_patch_envelope(
        "*** Begin Patch\n*** Update File: planned.txt\n@@\n-old\n+new\n*** End Patch\n",
    )
    .unwrap();
    let run = match begin_patch(&ops, &ws.section_facts(&ops), false) {
        Ok(run) => run,
        Err(result) => panic!("{}", result.output),
    };

    ws.files.remove(&at("planned.txt"));
    ws.links.push(at("planned.txt"));
    let run = ws.drive(run);

    assert!(run.applied().is_empty());
    assert!(run.failure().is_some());
}

#[test]
fn apply_patch_adds_and_updates_file() {
    let mut ws = Workspace::default();
    let add = ws.apply("*** Begin Patch\n*** Add File: demo.txt\n+hello\n+world\n*** End Patch\n");
    assert!(add.success, "{}", add.output);
    assert_eq!(ws.read("demo.txt"), Some("hello\nworld"));

    let update = ws.apply(
        "*** Begin Patch\n*** Update File: demo.txt\n@@\n hello\n-world\n+codex\n*** End Patch\n",
    );
    assert!(update.success, "{}", update.output);
    assert_eq!(ws.read("demo.txt"), Some("hello\ncodex"));
}

#[test]
fn apply_patch_emits_diff_preview_structured_metadata() {
    let mut ws = Workspace::default();
    let result =
        ws.apply("*** Begin Patch\n*** Add File: hello.txt\n+hello\n+world\n*** End Patch\n");
    assert!(result.success, "apply_patch must succeed on Add File");
    assert_eq!(meta_text(&result, "codex_tool"), "\"apply_patch\"");
    assert_eq!(meta_text(&result, "modified_paths"), "[\"hello.txt\"]");
    match meta(&result, "diff_preview") {
        Json::Array(preview) => {
            assert_eq!(preview.len(), 1);
            assert_eq!(preview[0].get_text("op").unwrap(), "add");
            assert_eq!(preview[0].get_text("path").unwrap(), "hello.txt");
        }
        other => panic!("diff_preview must be an array, got {other:?}"),
    }
    assert_eq!(ws.read("hello.txt"), Some("hello\nworld"));
}

#[test]
fn should_delete_file_when_patch_contains_delete_section() {
    let mut ws = Workspace::with(&[("gone.txt", "bye\n")]);
    let result = ws.apply("*** Begin Patch\n*** Delete File: gone.txt\n*** End Patch\n");
    assert!(result.success, "{}", result.output);
    assert!(!ws.has("gone.txt"));
}

#[test]
fn should_move_and_update_when_update_section_has_move_to() {
    let mut ws = Workspace::with(&[("app.py", "def greet():\n    print(\"Hi\")\n")]);
    let result = ws.apply(
        "*** Begin Patch\n\
         *** Update File: app.py\n\
         *** Move to: main.py\n\
         @@ def greet():\n\
         -    print(\"Hi\")\n\
         +    print(\"Hello, world!\")\n\
         *** End Patch\n",
    );
    assert!(result.success, "{}", result.output);
    assert!(!ws.has("app.py"), "source must be gone");
    assert_eq!(
        ws.read("main.py"),
        Some("def greet():\n    print(\"Hello, world!\")\n")
    );
    match meta(&result, "diff_preview") {
        Json::Array(preview) => {
            assert_eq!(preview[0].get_text("op").unwrap(), "move");
            assert_eq!(preview[0].get_text("path").unwrap(), "main.py");
            assert_eq!(preview[0].get_text("from").unwrap(), "app.py");
        }
        other => panic!("diff_preview must be an array, got {other:?}"),
    }
    assert_eq!(meta_text(&result, "modified_paths"), "[\"main.py\"]");
}

#[test]
fn should_rename_file_when_update_has_move_to_and_no_hunks() {
    let mut ws = Workspace::with(&[("old.txt", "same body\n")]);
    let result = ws.apply(
        "*** Begin Patch\n*** Update File: old.txt\n*** Move to: new/dir/new.txt\n*** End Patch\n",
    );
    assert!(result.success, "{}", result.output);
    assert!(!ws.has("old.txt"));
    assert_eq!(ws.read("new/dir/new.txt"), Some("same body\n"));
}

#[test]
fn should_apply_multi_file_patch_when_sections_span_ops() {
    let mut ws = Workspace::with(&[
        ("upd.txt", "keep\nold\n"),
        ("del.txt", "x\n"),
        ("mv.txt", "content\n"),
    ]);
    let result = ws.apply(
        "*** Begin Patch\n\
         *** Add File: sub/new.txt\n\
         +fresh\n\
         *** Update File: upd.txt\n\
         @@\n \
         keep\n\
         -old\n\
         +new\n\
         *** Delete File: del.txt\n\
         *** Update File: mv.txt\n\
         *** Move to: moved.txt\n\
         @@\n\
         -content\n\
         +moved content\n\
         *** End Patch\n",
    );
    assert!(result.success, "{}", result.output);
    assert_eq!(ws.read("sub/new.txt"), Some("fresh"));
    assert_eq!(ws.read("upd.txt"), Some("keep\nnew\n"));
    assert!(!ws.has("del.txt"));
    assert!(!ws.has("mv.txt"));
    assert_eq!(ws.read("moved.txt"), Some("moved content\n"));
    assert_eq!(
        meta_text(&result, "modified_paths"),
        "[\"sub/new.txt\",\"upd.txt\",\"del.txt\",\"moved.txt\"]"
    );
}

#[test]
fn should_apply_add_then_update_same_file_when_patch_chains_ops() {
    let mut ws = Workspace::default();
    let result = ws.apply(
        "*** Begin Patch\n\
         *** Add File: chain.txt\n\
         +one\n\
         +two\n\
         *** Update File: chain.txt\n\
         @@\n\
         -two\n\
         +three\n\
         *** End Patch\n",
    );
    assert!(result.success, "{}", result.output);
    assert_eq!(ws.read("chain.txt"), Some("one\nthree"));
}

#[test]
fn should_reject_path_escape_when_path_contains_dotdot() {
    let mut ws = Workspace::default();
    let result = ws.apply("*** Begin Patch\n*** Add File: ../escape.txt\n+bad\n*** End Patch\n");
    assert!(!result.success);
    assert!(result.output.contains("not allowed"), "{}", result.output);
    assert!(ws.files.is_empty());
}

#[test]
fn should_reject_absolute_path_when_section_targets_absolute() {
    let mut ws = Workspace::default();
    let result =
        ws.apply("*** Begin Patch\n*** Add File: /ws/inside.txt\n+bad\n*** End Patch\n");
    assert!(!result.success);
    assert!(
        result.output.contains("absolute paths are not allowed"),
        "{}",
        result.output
    );
    assert!(ws.files.is_empty());
}

#[test]
fn should_reject_move_destination_when_move_to_escapes() {
    let mut ws = Workspace::with(&[("src.txt", "body\n")]);
    let result = ws.apply(
        "*** Begin Patch\n*** Update File: src.txt\n*** Move to: ../stolen.txt\n*** End Patch\n",
    );
    assert!(!result.success);
    assert!(result.output.contains("not allowed"), "{}", result.output);
    assert!(ws.has("src.txt"));
    assert_eq!(ws.files.len(), 1);
}

#[test]
fn should_reject_symlink_when_update_targets_symlink() {
    let mut ws = Workspace::with(&[("link.txt", "secret\n")]);
    ws.links.push(at("link.txt"));
    let result = ws.apply(
        "*** Begin Patch\n*** Update File: link.txt\n@@\n-secret\n+patched\n*** End Patch\n",
    );
    assert!(!result.success, "{}", result.output);
    assert!(
        result.output.contains("Symlink"),
        "expected symlink rejection, got: {}",
        result.output
    );
    assert_eq!(ws.read("link.txt"), Some("secret\n"));
}

#[test]
fn should_not_modify_workspace_when_validation_fails() {
    let mut ws = Workspace::default();
    let result = ws.apply(
        "*** Begin Patch\n\
         *** Add File: ok.txt\n\
         +fine\n\
         *** Update File: missing.txt\n\
         @@\n\
         -a\n\
         +b\n\
         *** End Patch\n",
    );
    assert!(!result.success);
    assert!(result.output.contains("section 2"), "{}", result.output);
    assert!(result.output.contains("missing.txt"), "{}", result.output);
    assert!(
        result.output.contains("No files were modified"),
        "{}",
        result.output
    );
    assert!(
        !ws.has("ok.txt"),
        "validation failure must not apply earlier sections"
    );
}

#[test]
fn should_reject_when_add_target_exists() {
    let mut ws = Workspace::with(&[("dup.txt", "already here\n")]);
    let result = ws.apply("*** Begin Patch\n*** Add File: dup.txt\n+clobber\n*** End Patch\n");
    assert!(!result.success);
    assert!(
        result.output.contains("already exists"),
        "{}",
        result.output
    );
    assert_eq!(ws.read("dup.txt"), Some("already here\n"));
}

#[test]
fn should_reject_when_delete_target_missing() {
    let mut ws = Workspace::default();
    let result = ws.apply("*** Begin Patch\n*** Delete File: nope.txt\n*** End Patch\n");
    assert!(!result.success);
    assert!(result.output.contains("not found"), "{}", result.output);
}

#[test]
fn should_reject_when_move_destination_exists() {
    let mut ws = Workspace::with(&[("a.txt", "a\n"), ("b.txt", "b\n")]);
    let result = ws.apply(
        "*** Begin Patch\n*** Update File: a.txt\n*** Move to: b.txt\n*** End Patch\n",
    );
    assert!(!result.success);
    assert!(
        result.output.contains("already exists"),
        "{}",
        result.output
    );
    assert_eq!(ws.read("b.txt"), Some("b\n"));
    assert!(ws.has("a.txt"));
}

#[test]
fn should_report_failing_section_when_hunk_context_missing() {
    let mut ws = Workspace::with(&[("real.txt", "actual content\n")]);
    let result = ws.apply(
        "*** Begin Patch\n*** Update File: real.txt\n@@\n-imaginary\n+x\n*** End Patch\n",
    );
    assert!(!result.success);
    assert!(result.output.contains("section 1"), "{}", result.output);
    assert!(result.output.contains("real.txt"), "{}", result.output);
    assert!(result.output.contains("hunk 1"), "{}", result.output);
    assert_eq!(ws.read("real.txt"), Some("actual content\n"));
}

#[test]
fn should_report_applied_sections_when_apply_fails_midway() {
    let mut ws = Workspace::with(&[("blocker", "i am a file\n")]);
    let result = ws.apply(
        "*** Begin Patch\n\
         *** Add File: ok.txt\n\
         +fine\n\
         *** Add File: blocker/child.txt\n\
         +never lands\n\
         *** End Patch\n",
    );
    assert!(!result.success);
    assert!(
        result.output.contains("Patch failed at section 2"),
        "{}",
        result.output
    );
    assert!(
        result.output.contains("Already applied"),
        "{}",
        result.output
    );
    assert!(result.output.contains("added ok.txt"), "{}", result.output);
    assert_eq!(ws.read("ok.txt"), Some("fine"));
    assert_eq!(meta_text(&result, "failed_section"), "2");
    assert_eq!(meta_text(&result, "modified_paths"), "[\"ok.txt\"]");
    assert_eq!(meta_text(&result, "partial_paths"), "[]");
}

#[test]
fn should_report_unchanged_when_first_section_fails_cleanly() {
    let mut ws = Workspace::with(&[("blocker", "i am a file\n")]);
    let result = ws.apply(
        "*** Begin Patch\n*** Add File: blocker/child.txt\n+never lands\n*** End Patch\n",
    );
    assert!(!result.success);
    assert!(
        result.output.contains("Patch failed at section 1"),
        "{}",
        result.output
    );
    assert!(
        result
            .output
            .contains("No sections were applied; the workspace is unchanged."),
        "{}",
        result.output
    );
    assert!(result.file_modified.is_none());
    assert_eq!(meta_text(&result, "failed_section"), "1");
    assert_eq!(meta_text(&result, "modified_paths"), "[]");
    assert_eq!(meta_text(&result, "partial_paths"), "[]");
}

#[test]
fn should_report_partial_move_when_source_removal_fails() {
    let mut ws = Workspace::with(&[("locked/src.txt", "body\n")]);
    ws.locked.push(at("locked/src.txt"));
    let result = ws.apply(
        "*** Begin Patch\n*** Update File: locked/src.txt\n*** Move to: dest.txt\n*** End Patch\n",
    );
    assert!(!result.success);
    assert!(
        result.output.contains("Patch failed at section 1"),
        "{}",
        result.output
    );
    assert!(
        result
            .output
            .contains("wrote dest.txt but failed to remove locked/src.txt"),
        "{}",
        result.output
    );
    assert_eq!(ws.read("dest.txt"), Some("body\n"));
    assert!(
        !result.output.contains("workspace is unchanged"),
        "must not claim an unchanged workspace: {}",
        result.output
    );
    assert!(
        result
            .output
            .contains("The failed section left partial state on disk: dest.txt (written)"),
        "{}",
        result.output
    );
    assert_eq!(result.file_modified.as_deref(), Some("/ws/dest.txt"));
    assert_eq!(meta_text(&result, "failed_section"), "1");
    assert_eq!(meta_text(&result, "modified_paths"), "[\"dest.txt\"]");
    assert_eq!(meta_text(&result, "partial_paths"), "[\"dest.txt\"]");
}

#[test]
fn should_refuse_when_file_access_read_only() {
    let tool = ApplyPatchTool::new(ROOT).with_file_access(FileAccessMode::ReadOnly);
    let patch = "*** Begin Patch\n*** Add File: a.txt\n+x\n*** End Patch\n".to_string();
    match tool.request(Some(patch), None, None) {
        PatchRequest::Refuse(result) => {
            assert!(!result.success);
            assert!(result.output.contains("read-only"), "{}", result.output);
        }
        _ => panic!("a read-only tool must refuse"),
    }
}

#[test]
fn should_apply_unified_diff_when_path_and_diff_given() {
    let tool = ApplyPatchTool::new(ROOT);
    let diff = "@@ -1,2 +1,2 @@\n line1\n-line2\n+line2_new\n".to_string();
    let (path, diff) = match tool.request(None, Some("f.txt".to_string()), Some(diff)) {
        PatchRequest::Unified { path, diff } => (path, diff),
        _ => panic!("a path with a diff is a unified edit"),
    };
    assert_eq!(path, "f.txt");
    let edit = match DiffEditTool::new(ROOT).prepare(false, &path, &Ok(at("f.txt")), &diff) {
        Ok(edit) => edit,
        Err(result) => panic!("{}", result.output),
    };
    assert_eq!(edit.path, "/ws/f.txt");
    assert_eq!(
        edit.transform("line1\nline2\n".as_bytes()).unwrap(),
        "line1\nline2_new\n"
    );
}

#[test]
fn should_preserve_trailing_newline_when_updating() {
    let mut ws = Workspace::with(&[("nl.txt", "a\nb\n")]);
    let result =
        ws.apply("*** Begin Patch\n*** Update File: nl.txt\n@@\n a\n-b\n+B\n*** End Patch\n");
    assert!(result.success, "{}", result.output);
    assert_eq!(ws.read("nl.txt"), Some("a\nB\n"));
}

#[test]
fn should_invalidate_file_state_cache_when_patch_touches_files() {
    let mut ws = Workspace::with(&[("upd.txt", "old\n"), ("del.txt", "x\n")]);
    let ops = parse_patch_envelope(
        "*** Begin Patch\n*** Update File: upd.txt\n@@\n-old\n+new\n*** Delete File: del.txt\n*** End Patch\n",
    )
    .unwrap();
    let run = match begin_patch(&ops, &ws.section_facts(&ops), false) {
        Ok(run) => run,
        Err(result) => panic!("{}", result.output),
    };
    let run = ws.drive(run);
    let mut cache = vec![at("upd.txt"), at("del.txt")];
    for op in run.applied() {
        cache.retain(|p| !op.touched.contains(p));
    }
    assert_eq!(cache.len(), 0, "update and delete must invalidate");
}

#[test]
fn a_session_refusal_is_passed_on() {
    let found: Result<String, Refusal> = Err(Refusal::Session("outside the session".to_string()));
    let error = resolve_patch_path("a.txt", &found, false).unwrap_err();
    assert!(error.contains("outside the session"), "{error}");
    let error = resolve_patch_path("a.txt", &Err(Refusal::Workspace), false).unwrap_err();
    assert!(error.contains("a.txt"), "{error}");
    assert_eq!(
        resolve_patch_path("a.txt", &Ok("/ws/a.txt".to_string()), false),
        Ok("/ws/a.txt".to_string())
    );
}

#[test]
fn unsafe_patch_paths_are_refused() {
    assert!(reject_unsafe_patch_path("src/a.rs", false).is_ok());
    assert!(reject_unsafe_patch_path("..a/b", false).is_ok());
    assert!(reject_unsafe_patch_path("/etc/passwd", false).is_err());
    assert!(reject_unsafe_patch_path("a/../../b", false).is_err());
}

#[test]
fn unsafe_patch_paths_of_windows_are_refused() {
    for bad in ["C:\\x", "c:x", "\\x", "/x", "\\\\server\\share\\x", "a\\..\\b", "a\\../b", ".."] {
        assert!(reject_unsafe_patch_path(bad, true).is_err(), "{bad}");
    }
    for fine in ["a\\b", "a/b", "..a\\b", "1:x", ""] {
        assert!(reject_unsafe_patch_path(fine, true).is_ok(), "{fine}");
    }
    for fine in ["C:\\x", "\\x", "a\\..\\b"] {
        assert!(reject_unsafe_patch_path(fine, false).is_ok(), "{fine}");
    }
}

#[test]
fn paths_that_name_one_place_are_one_file() {
    for (a, b) in [
        ("/ws/./a", "/ws/a"),
        ("/ws//a/", "/ws/a"),
        ("a/.", "a"),
        ("./", "."),
    ] {
        assert!(same_place(a, b, false), "{a} {b}");
    }
    for (a, b) in [("./a", "a"), ("/a", "a"), ("/ws/x/../a", "/ws/a"), ("a\\b", "a/b")] {
        assert!(!same_place(a, b, false), "{a} {b}");
    }
    for (a, b) in [
        ("c:\\ws\\a", "C:/ws/./a"),
        ("\\\\s\\t\\a", "//s/t/a/"),
    ] {
        assert!(same_place(a, b, true), "{a} {b}");
    }
    for (a, b) in [("C:a", "C:/a"), ("\\\\s\\t\\a", "\\s\\t\\a"), ("C:/A", "C:/a")] {
        assert!(!same_place(a, b, true), "{a} {b}");
    }
    let place = place_of("c:\\ws\\.\\a\\", true);
    assert!(matches!(place.prefix, Prefix::Drive('C')));
    assert!(place.rooted);
    assert_eq!(place.parts, vec!["ws", "a"]);
    for (a, b) in [
        (r"C:.\a", "C:a"),
        (r"\\s\t", r"\\s\t\"),
        (r"\\?\c:\a", r"\\?\C:\a\"),
        (r"\\?\UNC\s\t\a", r"\\?\UNC\s\t\a"),
        (r"\\.\COM1", "//./COM1/"),
    ] {
        assert!(same_place(a, b, true), "{a} {b}");
    }
    for (a, b) in [
        (r"\\?\C:\a", r"C:\a"),
        (r"\\?\C:\a\.\b", r"\\?\C:\a\b"),
        (r"\\?\C:\a/b", r"\\?\C:\a\b"),
        (r"\\?\C:", r"\\?\C:\"),
        (r"\\s\.\a", r"\\s\a"),
    ] {
        assert!(!same_place(a, b, true), "{a} {b}");
    }
}

#[test]
fn paths_are_joined_as_the_system_does() {
    assert_eq!(join_paths("/ws", "a", false), "/ws/a");
    assert_eq!(join_paths("/ws/", "a", false), "/ws/a");
    assert_eq!(join_paths("", "a", false), "a");
    assert_eq!(join_paths("/ws", "/a", false), "/a");
    assert_eq!(join_paths("C:\\ws", "a", true), "C:\\ws\\a");
    assert_eq!(join_paths("C:", "a", true), "C:a");
    assert_eq!(join_paths("C:\\ws", "\\a", true), "C:\\a");
    assert_eq!(join_paths("\\\\s\\t\\ws", "/a", true), "\\\\s\\t/a");
    assert_eq!(join_paths("C:\\ws", "d:a", true), "d:a");
    assert_eq!(join_paths(r"\\?\C:\ws", r"..\a", true), r"\\?\C:\a");
    assert_eq!(join_paths(r"\\?\C:\ws", r".\a/b", true), r"\\?\C:\ws\a\b");
    assert_eq!(join_paths(r"\\?\C:\ws\", r"..\..\..\a", true), r"\\?\C:\a");
    assert_eq!(join_paths(r"\\?\C:\ws", r"\a", true), r"\\?\C:\a");
    assert_eq!(join_paths(r"\\?\C:", "a", true), r"\\?\C:\a");
    assert_eq!(join_paths(r"\\?\C:\ws", "", true), r"\\?\C:\ws\");
    assert_eq!(join_paths(r"\\?\C:\ws", r"D:\x", true), r"D:\x");
}

#[test]
fn absolute_paths_of_windows_have_a_prefix_and_a_root() {
    for path in [r"C:\a", "c:/a", r"\\s\t", "//s/t/a", r"\\?\C:", r"\\?\x", r"\\.\x"] {
        assert!(is_absolute(path, true), "{path}");
    }
    for path in [r"\a", "/a", "C:a", "C:", r"\\server", r"\\server\", "a", ""] {
        assert!(!is_absolute(path, true), "{path}");
    }
    assert!(is_absolute("/a", false));
    assert!(!is_absolute(r"C:\a", false));
}

#[test]
fn a_file_under_two_names_is_planned_once() {
    let ops = parse_patch_envelope(
        "*** Begin Patch\n*** Add File: a.txt\n+one\n*** Add File: ./a.txt\n+two\n*** End Patch\n",
    )
    .unwrap();
    let facts = |found: &str| SectionFacts {
        source: PathFacts {
            found: Ok(found.to_string()),
            entry: Ok(DiskEntry::Absent),
            read: FileRead::NotText,
        },
        dest: PathFacts {
            found: Ok(found.to_string()),
            entry: Ok(DiskEntry::Absent),
            read: FileRead::NotText,
        },
    };
    let result = begin_patch(&ops, &vec![facts("/ws/a.txt"), facts("/ws/./a.txt")], false)
        .err()
        .expect("the second section finds the file of the first");
    assert!(result.output.contains("section 2"), "{}", result.output);
    assert!(result.output.contains("file already exists"), "{}", result.output);
}

#[test]
fn the_overlay_keeps_what_was_put_last() {
    let overlay = Overlay::new()
        .put(place_of("/ws/a", false), Some("one".to_string()))
        .put(place_of("/ws/b", false), None)
        .put(place_of("/ws/./a", false), Some("two".to_string()));
    assert_eq!(overlay.get(&place_of("/ws/a", false)), Some(Some("two".to_string())));
    assert_eq!(overlay.get(&place_of("/ws//b", false)), Some(None));
    assert_eq!(overlay.get(&place_of("/ws/c", false)), None);
}

#[test]
fn a_failed_second_section_leaves_the_first_applied() {
    let mut ws = Workspace::with(&[("a.txt", "a\n"), ("b.txt", "b\n")]);
    let ops = parse_patch_envelope(
        "*** Begin Patch\n*** Delete File: a.txt\n*** Delete File: b.txt\n*** End Patch\n",
    )
    .unwrap();
    let run = match begin_patch(&ops, &ws.section_facts(&ops), false) {
        Ok(run) => run,
        Err(result) => panic!("{}", result.output),
    };
    ws.locked.push(at("b.txt"));
    let run = ws.drive(run);
    assert_eq!(run.applied().len(), 1);
    assert_eq!(run.applied()[0].op, OpKind::Delete);
    assert_eq!(run.applied()[0].display_for_output(), "a.txt");
    assert_eq!(run.failure().as_ref().unwrap().section_no, 2);
}

#[test]
fn an_empty_call_is_refused() {
    let tool = ApplyPatchTool::new(ROOT).with_filesystem_scope(FilesystemScope::Host);
    match tool.request(None, None, None) {
        PatchRequest::Refuse(result) => assert!(!result.success),
        _ => panic!("a call without a patch must be refused"),
    }
}
