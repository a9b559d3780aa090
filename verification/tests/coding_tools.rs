//! The coding tools: commands, plans, images, discovery.

use octos_agent::catalog::{
    catalog_score, search_catalog, suggest_catalog, tokenize_query, ToolCatalogEntry,
    ToolSearchTool, ToolSuggestTool,
};
use octos_agent::codec::{parse_json, parse_toml, render_json};
use octos_agent::command::{
    append_reader_output, bash_timeout_secs, denied_by_user, exec_timeout_secs, launch_failure,
    receipt_scope_root, request_command_approval, resolve_optional_workdir, sandbox_denial_hint,
    session_answer, session_output_payload, timed_out, truncate_capture_in_place, truncate_output,
    Approval, ApprovalPolicy, BashFileWrites, BashTool, CommandFacts, CommandOutput, Consent, Decision,
    ExecCommandTool, ReceiptScope, WriteStdinTool, MAX_CAPTURE_BYTES,
};
use octos_agent::image::{
    detect_image_format, reject_leaf_symlink, reject_symlink_ancestors, Ancestor, Entry,
    ImageFormat, ImageGenerationTool, ViewImageTool,
};
use octos_agent::json::Json;
use octos_agent::plan::{normalize_plan, PlanItemStatus, RequestUserInputTool, UpdatePlanTool};
use octos_agent::policy::any_entry_matches;
use octos_agent::processes::{collect_descendant_pids, must_kill, survivors};
use octos_agent::spawn_agent::SpawnAgentTool;
use octos_agent::agents::{RoleRegistry, RoleTemplate};
use octos_agent::tool::{FilesystemScope, ToolResult};

fn json(text: &str) -> Json {
    parse_json(text).expect("json")
}

fn meta(result: &ToolResult, key: &str) -> String {
    let meta = result.structured_metadata.as_ref().expect("metadata");
    render_json(meta.get(key).expect("member"))
}

fn one_role() -> RoleRegistry {
    RoleRegistry {
        templates: vec![RoleTemplate {
            name: "explorer".to_string(),
            display_name: "Explorer".to_string(),
            agent_types: vec!["explorer".to_string()],
            spawn_tools: vec!["read_file".to_string()],
            default_sandbox_mode: "read-only".to_string(),
            default_approval_policy: "never".to_string(),
            model_preference: "fast".to_string(),
            summary: Json::Null,
        }],
    }
}

// ---------------------------------------------------------------- plans

#[test]
fn normalize_plan_maps_codex_shape_and_assigns_ids() {
    let args = json(
        r#"{
        "explanation": "Building memory panel…",
        "plan": [
            { "step": "web P3: PWA manifest", "status": "completed" },
            { "step": "memory panel", "status": "in_progress" },
            { "step": "cron toggle", "status": "pending", "priority": "P3" },
            { "step": "no status → pending" }
        ]
    }"#,
    );
    let record = normalize_plan(&args, 42);
    assert_eq!(record.title.as_deref(), Some("Building memory panel…"));
    assert_eq!(record.updated_at_ms, 42);
    assert_eq!(record.items.len(), 4);
    assert_eq!(record.items[0].id, "1");
    assert_eq!(record.items[3].id, "4");
    assert_eq!(record.items[0].status, PlanItemStatus::Completed);
    assert_eq!(record.items[1].status, PlanItemStatus::InProgress);
    assert_eq!(record.items[2].status, PlanItemStatus::Pending);
    assert_eq!(record.items[2].priority.as_deref(), Some("P3"));
    assert_eq!(record.items[3].status, PlanItemStatus::Pending);
    assert_eq!(record.items[0].title, "web P3: PWA manifest");
}

#[test]
fn update_plan_tool_emits_plan_updated_event() {
    let args = json(r#"{"plan": [{"step": "do a thing", "status": "in_progress"}]}"#);
    let (record, _) = UpdatePlanTool.execute(&args, 7);
    assert_eq!(record.items[0].title, "do a thing");
    assert_eq!(record.items[0].status, PlanItemStatus::InProgress);
}

#[test]
fn update_plan_emits_structured_metadata_event() {
    let args = json(
        r#"{"plan": [
            { "id": "p1", "title": "scaffold", "status": "in_progress" },
            { "id": "p2", "title": "tests", "status": "pending" }
        ]}"#,
    );
    let (_, result) = UpdatePlanTool.execute(&args, 1);
    assert!(result.success, "update_plan must succeed");
    assert_eq!(meta(&result, "codex_tool"), "\"update_plan\"");
    assert_eq!(meta(&result, "plan"), render_json(&args));
}

#[test]
fn request_user_input_emits_structured_metadata_event() {
    let args = json(r#"{"prompt": "Pick a deploy target", "choices": ["staging", "prod"]}"#);
    let result = RequestUserInputTool.execute(&args);
    assert!(result.success);
    assert_eq!(meta(&result, "codex_tool"), "\"request_user_input\"");
    assert_eq!(meta(&result, "request"), render_json(&args));
    assert!(result
        .structured_metadata
        .as_ref()
        .unwrap()
        .get("host_response_channel")
        .is_some());
}

// ---------------------------------------------------------------- captured output

#[test]
fn truncate_capture_does_not_panic_on_multibyte_boundary() {
    let mut guard = "世".repeat(40_000);
    let cut = guard.len().saturating_sub(MAX_CAPTURE_BYTES);
    assert!(
        !guard.is_char_boundary(cut),
        "test precondition: the raw cut offset must fall mid-char"
    );

    truncate_capture_in_place(&mut guard);
    assert!(guard.starts_with("... (earlier output truncated)\n"));
    assert!(
        guard.contains('世'),
        "the kept tail must remain valid UTF-8"
    );
}

#[test]
fn short_captures_stay_as_they_are() {
    let mut guard = "some output\n".to_string();
    truncate_capture_in_place(&mut guard);
    assert_eq!(guard, "some output\n");
    let mut guard = "x".repeat(2 * MAX_CAPTURE_BYTES);
    truncate_capture_in_place(&mut guard);
    assert_eq!(guard.len(), 2 * MAX_CAPTURE_BYTES);
    guard.push('x');
    truncate_capture_in_place(&mut guard);
    assert_eq!(
        guard.len(),
        "... (earlier output truncated)\n".len() + MAX_CAPTURE_BYTES
    );
}

#[test]
fn readers_append_what_they_read() {
    let mut buffer = String::new();
    append_reader_output(&mut buffer, b"out", false);
    append_reader_output(&mut buffer, b"err", true);
    assert!(buffer.contains("out"));
    assert!(buffer.contains("err"));
    append_reader_output(&mut buffer, &[0xff], false);
    assert!(buffer.ends_with('\u{FFFD}'));
}

#[test]
fn output_is_cut_at_the_cap() {
    assert_eq!(truncate_output("short", 10), "short");
    assert_eq!(truncate_output(&"y".repeat(256), 10), "y".repeat(256));
    assert_eq!(
        truncate_output(&"y".repeat(300), 10),
        format!("{}\n... (output truncated)", "y".repeat(256))
    );
}

#[test]
fn sandbox_denial_hint_fires_only_on_sandboxed_failures() {
    for denial in [
        "error: could not read settings file: Operation not permitted",
        "mkdir: cannot create directory: Permission denied",
        "touch: cannot touch '/etc/x': Read-only file system",
    ] {
        let hint = sandbox_denial_hint(true, false, false, denial);
        let hint = hint.expect("sandboxed failure must be explained");
        assert!(hint.contains("[sandbox]"), "hint must be tagged: {hint}");
    }

    let hint = sandbox_denial_hint(true, true, false, "Operation not permitted").unwrap();
    assert!(
        hint.contains("allow_toolchains"),
        "macOS hint names the lever"
    );
    let hint = sandbox_denial_hint(true, false, false, "Operation not permitted").unwrap();
    assert!(
        !hint.contains("allow_toolchains"),
        "non-macOS backends do not implement the grants; the hint must not advertise them"
    );

    for (sandboxed, success, body) in [
        (false, false, "Operation not permitted"),
        (true, true, "Operation not permitted"),
        (true, false, "error: normal compile failure"),
    ] {
        for macos in [false, true] {
            assert!(
                sandbox_denial_hint(sandboxed, macos, success, body).is_none(),
                "no hint for ({sandboxed}, {success}, {body})"
            );
        }
    }
}

#[test]
fn session_payload_carries_denial_hint_on_sandboxed_failures() {
    let denial = "error: could not read settings file: Operation not permitted".to_string();
    let payload = session_output_payload(&denial, Some(1), true, false, 4096);
    assert!(payload.contains("[sandbox]"), "{payload}");
    let payload = session_output_payload(&denial, None, true, false, 4096);
    assert!(!payload.contains("[sandbox]"), "{payload}");
    let payload = session_output_payload(&denial, Some(1), false, false, 4096);
    assert!(!payload.contains("[sandbox]"), "{payload}");
}

#[test]
fn the_hint_survives_the_cap() {
    let denial = format!("Permission denied\n{}", "z".repeat(500));
    let payload = session_output_payload(&denial, Some(2), true, false, 100);
    assert!(payload.contains("[sandbox]"), "{payload}");
}

// ---------------------------------------------------------------- commands

fn facts(write: bool, allowed: bool) -> CommandFacts {
    CommandFacts {
        looks_like_write: write,
        allows_write: allowed,
        sandbox_refusal: None,
        home: Some("/home/user".to_string()),
        windows: false,
    }
}

fn ended(stdout: &str, receipt: Option<&str>) -> CommandOutput {
    CommandOutput {
        stdout: stdout.as_bytes().to_vec(),
        stderr: Vec::new(),
        code: Some(0),
        success: true,
        receipt: receipt.map(|r| r.to_string()),
    }
}

fn allowed() -> Consent {
    Consent {
        decision: Decision::Allow,
        can_ask: false,
        agreed: false,
    }
}

fn run_bash(mode: BashFileWrites, command: &str, facts: &CommandFacts, output: &CommandOutput) -> ToolResult {
    let tool = BashTool::new("/ws", false, false).with_bash_file_writes(mode);
    match tool.plan(command.to_string(), "/ws".to_string(), allowed(), None, facts) {
        Ok(plan) => tool.finish(&plan, output).0,
        Err(refusal) => refusal,
    }
}

fn run_exec(mode: BashFileWrites, command: &str, facts: &CommandFacts, output: &CommandOutput) -> ToolResult {
    let tool = ExecCommandTool::new("/ws", false, false).with_bash_file_writes(mode);
    match tool.plan(command.to_string(), "/ws".to_string(), allowed(), None, facts) {
        Ok(plan) => tool.finish(&plan, output, None).0,
        Err(refusal) => refusal,
    }
}

#[test]
fn exec_command_runs_to_completion() {
    let out = run_exec(
        BashFileWrites::Allow,
        "printf codex",
        &facts(false, false),
        &ended("codex", None),
    );
    assert!(out.success, "{}", out.output);
    assert!(out.output.contains("codex"));
}

#[test]
fn bash_rejects_missing_cmd() {
    let tool = BashTool::new("/ws", false, false);
    let out = tool.read_call(None, None, None, &None).unwrap_err();
    assert!(!out.success);
    assert!(
        out.output.contains("cmd"),
        "missing-cmd error must mention `cmd`; got: {}",
        out.output
    );
}

#[test]
fn bash_denies_dangerous_command_via_safe_policy() {
    match request_command_approval(
        "bash",
        "rm -rf /",
        "/ws",
        Decision::Deny,
        ApprovalPolicy::Ask,
        true,
    ) {
        Approval::Refused(result) => {
            assert!(!result.success);
            assert!(result.output.to_lowercase().contains("denied"), "{}", result.output);
        }
        other => panic!("a denied command must be refused, got {other:?}"),
    }
}

#[test]
fn approvals_are_asked_for_only_where_they_can_be_given() {
    let ask = |policy: ApprovalPolicy, channel: bool| {
        request_command_approval("bash", "make", "/ws", Decision::Ask, policy, channel)
    };
    assert!(matches!(ask(ApprovalPolicy::Ask, true), Approval::Prompt { .. }));
    assert!(matches!(ask(ApprovalPolicy::Ask, false), Approval::Refused(_)));
    assert!(matches!(ask(ApprovalPolicy::Never, true), Approval::Refused(_)));
    let allowed = request_command_approval(
        "bash",
        "ls",
        "/ws",
        Decision::Allow,
        ApprovalPolicy::Never,
        false,
    );
    assert!(matches!(allowed, Approval::Granted));
    assert!(!denied_by_user("bash", "make", "/ws").success);
}

#[test]
fn only_granted_commands_are_planned() {
    let facts = facts(false, false);
    let bash = BashTool::new("/ws", false, false);
    let exec = ExecCommandTool::new("/ws", false, false);
    let bash_plan = |consent: Consent| bash.plan("make".into(), "/ws".into(), consent, None, &facts);
    let exec_plan = |consent: Consent| exec.plan("make".into(), "/ws".into(), consent, None, &facts);
    for decision in [Decision::Allow, Decision::Deny, Decision::Ask] {
        for can_ask in [false, true] {
            for agreed in [false, true] {
                let consent = Consent {
                    decision,
                    can_ask,
                    agreed,
                };
                let granted = match decision {
                    Decision::Allow => true,
                    Decision::Deny => false,
                    Decision::Ask => can_ask && agreed,
                };
                assert_eq!(bash_plan(consent).is_ok(), granted, "{consent:?}");
                assert_eq!(exec_plan(consent).is_ok(), granted, "{consent:?}");
                let session = exec.refuse_session("make", "/ws", consent, None);
                assert_eq!(session.is_none(), granted, "{consent:?}");
            }
        }
    }
    let unasked = Consent {
        decision: Decision::Ask,
        can_ask: true,
        agreed: false,
    };
    let refusal = bash_plan(unasked).expect_err("not granted");
    assert_eq!(refusal.output, "Command denied by user approval: make");
    assert_eq!(meta(&refusal, "tool_name"), "\"bash\"");
    let never = BashTool::new("/ws", false, false).with_approval_policy(ApprovalPolicy::Never);
    let agreed = Consent {
        agreed: true,
        ..unasked
    };
    assert!(never.plan("make".into(), "/ws".into(), agreed, None, &facts).is_err());
    let refused = exec.refuse_session("make", "/ws", allowed(), Some("no sandbox".into()));
    assert_eq!(refused.expect("refused").output, "no sandbox");
}

#[test]
fn deny_refuses_write_and_escape_hatch_runs_bash_and_exec() {
    let out = run_bash(
        BashFileWrites::Deny,
        "echo x > /tmp/never-28d",
        &facts(true, false),
        &ended("", None),
    );
    assert!(!out.success);
    assert!(out.output.contains("bash_file_writes=deny"));

    let out = run_exec(
        BashFileWrites::Deny,
        "echo x > /tmp/never-28d-e",
        &facts(true, false),
        &ended("", None),
    );
    assert!(!out.success, "exec deny: {}", out.output);
    assert!(out.output.contains("bash_file_writes=deny"));

    let out = run_bash(
        BashFileWrites::Deny,
        "echo h > hatch.txt # octos:allow-write",
        &facts(true, true),
        &ended("", None),
    );
    assert!(out.success, "hatch: {}", out.output);
}

#[test]
fn deny_lets_readonly_run() {
    let out = run_bash(
        BashFileWrites::Deny,
        "echo readonly-28d",
        &facts(false, false),
        &ended("readonly-28d\n", None),
    );
    assert!(out.success);
    assert!(out.output.contains("readonly-28d"));
    assert!(!out.output.contains("bash_file_writes"));
}

#[test]
fn warn_nudges_only_on_change_bash_and_exec() {
    let out = run_bash(
        BashFileWrites::Warn,
        "echo nochange",
        &facts(false, false),
        &ended("nochange\n", Some("files_changed: 0")),
    );
    assert!(out.success);
    assert!(!out.output.contains("bash_file_writes=warn"));

    let out = run_bash(
        BashFileWrites::Warn,
        "echo w > w.txt",
        &facts(true, false),
        &ended("", Some("files_changed: 1")),
    );
    assert!(
        out.output.contains("bash_file_writes=warn"),
        "{}",
        out.output
    );

    let out = run_exec(
        BashFileWrites::Warn,
        "echo w2 > w2.txt",
        &facts(true, false),
        &ended("", Some("files_changed: 1")),
    );
    assert!(
        out.output.contains("bash_file_writes=warn"),
        "exec warn: {}",
        out.output
    );
}

#[test]
fn allow_is_zero_difference_on_both_tools() {
    for out in [
        run_bash(
            BashFileWrites::default(),
            "echo zd",
            &facts(false, false),
            &ended("zd\n", None),
        ),
        run_exec(
            BashFileWrites::default(),
            "echo zd",
            &facts(false, false),
            &ended("zd\n", None),
        ),
    ] {
        assert!(out.success);
        assert!(out.output.contains("zd"));
        assert!(!out.output.contains("bash_file_writes"));
        assert!(!out.output.contains("edit_file / diff_edit"));
    }
}

#[test]
fn cd_prefix_write_reports_one_with_scope_tag() {
    let out = run_bash(
        BashFileWrites::Allow,
        "cd /repo && echo real > /repo/r1.txt",
        &facts(true, false),
        &ended("", Some("files_changed: 1")),
    );
    assert!(out.success, "output: {}", out.output);
    assert!(out.output.contains("files_changed: 1"), "{}", out.output);
    assert!(
        out.output.contains("scope: cd-target"),
        "scope tag missing: {}",
        out.output
    );
}

#[test]
fn variable_cd_path_falls_back_to_workdir_scope() {
    let out = run_bash(
        BashFileWrites::Allow,
        "cd $TARGET 2>/dev/null; echo v > /ws/var.txt # octos:allow-write",
        &facts(true, true),
        &ended("", Some("files_changed: 1")),
    );
    assert!(out.success, "output: {}", out.output);
    assert!(
        out.output.contains("scope: workdir"),
        "fallback scope tag missing: {}",
        out.output
    );
}

#[test]
fn non_git_dir_omits_receipt() {
    let out = run_bash(
        BashFileWrites::Allow,
        "echo plain > plain.txt",
        &facts(true, false),
        &ended("", None),
    );
    assert!(out.success, "output: {}", out.output);
    assert!(
        !out.output.contains("files_changed"),
        "non-git fail-open must omit the receipt: {}",
        out.output
    );
}

#[test]
fn resolver_literal_cd_prefix_wins_and_var_falls_back() {
    let home = Some("/home/user".to_string());
    let ws = "/tmp/ws";
    let (root, scope) = receipt_scope_root(ws, "cd /tmp/tmp/x && echo hi > f", &home, false);
    assert_eq!(root, "/tmp/tmp/x");
    assert_eq!(scope.as_str(), "cd-target");

    let (root, scope) = receipt_scope_root(ws, "cd ~/proj && echo hi > f", &home, false);
    assert_eq!(scope.as_str(), "cd-target");
    assert!(
        root.starts_with("/home/user"),
        "~ expansion anchors at the platform home: {root:?}"
    );

    let (root, scope) = receipt_scope_root(ws, "echo hi > f", &home, false);
    assert_eq!(root, ws);
    assert_eq!(scope.as_str(), "workdir");

    let (root, scope) = receipt_scope_root(ws, "cd $TARGET && echo hi > f", &home, false);
    assert_eq!(root, ws);
    assert_eq!(scope.as_str(), "workdir");

    let (_root, scope) = receipt_scope_root(ws, "cd /tmp/x", &home, false);
    assert_eq!(scope.as_str(), "workdir");

    let (root, scope) = receipt_scope_root(ws, "cd /tmp/x; cd /tmp/y && echo hi > f", &home, false);
    assert_eq!(scope.as_str(), "workdir");
    assert_eq!(root, ws);
}

#[test]
fn relative_cd_targets_stand_under_the_workdir() {
    let (root, scope) = receipt_scope_root("/ws", "cd sub && touch f", &None, false);
    assert_eq!(root, "/ws/sub");
    assert_eq!(scope, ReceiptScope::CdTarget);
    let (root, _) = receipt_scope_root("C:\\ws", "cd sub && touch f", &None, true);
    assert_eq!(root, "C:\\ws\\sub");
    let (root, _) = receipt_scope_root("C:\\ws", "cd D:/x && touch f", &None, true);
    assert_eq!(root, "D:/x");
    let (root, _) = receipt_scope_root("C:\\ws", "cd /x && touch f", &None, true);
    assert_eq!(root, "C:/x");
    let (root, _) = receipt_scope_root("/ws", "cd D:/x && touch f", &None, false);
    assert_eq!(root, "/ws/D:/x");
    let (root, scope) = receipt_scope_root("/ws", "cd a\u{a0}b && touch f", &None, false);
    assert_eq!(root, "/ws");
    assert_eq!(scope, ReceiptScope::Workdir);
}

#[test]
fn timeouts_stay_in_their_bounds() {
    assert_eq!(bash_timeout_secs(None), 120);
    assert_eq!(bash_timeout_secs(Some(1)), 1);
    assert_eq!(exec_timeout_secs(Some(0)), 1);
    assert!(exec_timeout_secs(Some(u64::MAX)) < u64::MAX);
    assert!(timed_out(5).output.contains('5'));
    assert!(launch_failure("no such shell").output.contains("no such shell"));
}

#[test]
fn workdirs_are_resolved_or_refused() {
    assert_eq!(
        resolve_optional_workdir("/ws", None, &None),
        Ok("/ws".to_string())
    );
    let asked = "sub".to_string();
    assert_eq!(
        resolve_optional_workdir("/ws", Some(&asked), &Some("/ws/sub".to_string())),
        Ok("/ws/sub".to_string())
    );
    assert!(resolve_optional_workdir("/ws", Some(&asked), &None).is_err());
}

#[test]
fn sessions_are_asked_for_by_tty_or_by_yield() {
    let tool = ExecCommandTool::new("/ws", false, false);
    assert!(tool.is_session(Some(true), None));
    assert!(tool.is_session(None, Some(0)));
    assert!(!tool.is_session(Some(false), None));
    let answer = session_answer("s1", None, "hello", false, false, None);
    assert!(answer.success);
    assert!(answer.output.contains("s1"));
    assert!(answer.output.contains("hello"));
}

#[test]
fn write_stdin_refuses_unknown_and_closed_sessions() {
    let tool = WriteStdinTool;
    assert!(tool
        .refuse("s9", false, true, true)
        .unwrap()
        .output
        .contains("unknown exec session: s9"));
    assert!(tool.refuse("s9", true, true, false).is_some());
    assert!(tool.refuse("s9", true, false, false).is_none());
    assert!(tool.refuse("s9", true, true, true).is_none());
}

// ---------------------------------------------------------------- processes

#[test]
fn descendants_are_found_through_their_parents() {
    let listing = b"  1 0\n 10 1\n 11 10\n 12 11\n 20 1\n";
    assert_eq!(collect_descendant_pids(10, listing), vec![11, 12]);
    assert_eq!(collect_descendant_pids(20, listing), Vec::<u32>::new());
    assert_eq!(survivors(&vec![11, 12], &vec![12, 13]), vec![11, 12, 13]);
    assert!(!must_kill(false, false, &vec![false, false]));
    assert!(must_kill(false, false, &vec![false, true]));
    assert!(must_kill(true, false, &vec![]));
}

// ---------------------------------------------------------------- discovery

fn sample_catalog() -> Vec<ToolCatalogEntry> {
    let tags = |names: &[&str]| names.iter().map(|n| n.to_string()).collect::<Vec<String>>();
    vec![
        ToolCatalogEntry::new(
            "apply_patch",
            "Apply a Codex-style patch to files in the workspace",
            tags(&["fs", "code"]),
        ),
        ToolCatalogEntry::new(
            "exec_command",
            "Run a shell command. Supports long-running sessions.",
            tags(&["runtime", "code"]),
        ),
        ToolCatalogEntry::new(
            "update_plan",
            "Update the visible task plan",
            tags(&["code"]),
        ),
        ToolCatalogEntry::new(
            "web_search",
            "Search the web for an arbitrary query",
            tags(&["search", "web"]),
        ),
    ]
}

fn names_in(output: &str, key: &str) -> Vec<String> {
    match json(output).get(key) {
        Some(Json::Array(items)) => items
            .iter()
            .map(|i| i.get_text("name").unwrap().clone())
            .collect(),
        other => panic!("no list under {key}: {other:?}"),
    }
}

#[test]
fn tool_search_returns_matching_tools_for_substring() {
    let result = ToolSearchTool::new(sample_catalog()).execute(Some("patch"), None);
    assert!(result.success);
    let matches = names_in(&result.output, "matches");
    assert!(!matches.is_empty(), "expected at least one match");
    assert_eq!(matches[0], "apply_patch");
    assert_eq!(meta(&result, "codex_tool"), "\"tool_search\"");
}

#[test]
fn tool_search_returns_empty_matches_for_unrelated_query() {
    let result = ToolSearchTool::new(sample_catalog()).execute(Some("zzz_not_a_tool"), None);
    assert!(result.success);
    assert!(names_in(&result.output, "matches").is_empty());
}

#[test]
fn tool_search_honours_limit() {
    let result = ToolSearchTool::new(sample_catalog()).execute(Some("code"), Some(2));
    assert!(result.success);
    assert!(names_in(&result.output, "matches").len() <= 2);
}

#[test]
fn searches_without_a_query_list_the_head() {
    let all: Vec<String> = sample_catalog().iter().map(|entry| entry.name.clone()).collect();
    for query in [None, Some(""), Some(" \t")] {
        let result = ToolSearchTool::new(sample_catalog()).execute(query, Some(2));
        assert_eq!(names_in(&result.output, "matches"), all[..2].to_vec());
    }
}

#[test]
fn tool_suggest_ranks_relevant_tools_first() {
    let result = ToolSuggestTool::new(sample_catalog()).execute(
        Some("I want to apply a code patch to a file"),
        None,
        None,
    );
    assert!(result.success);
    let names = names_in(&result.output, "suggestions");
    assert!(!names.is_empty(), "expected suggestions for code task");
    assert_eq!(names[0], "apply_patch");
    assert!(
        !names.contains(&"web_search".to_string()),
        "web_search should not be suggested for a code-patch task: {names:?}"
    );
}

#[test]
fn tool_suggest_accepts_query_alias_for_task() {
    let result =
        ToolSuggestTool::new(sample_catalog()).execute(None, Some("shell command"), None);
    assert!(result.success);
    assert_eq!(names_in(&result.output, "suggestions")[0], "exec_command");
}

#[test]
fn queries_are_lowered_and_split_at_what_is_no_letter_or_digit() {
    assert_eq!(tokenize_query("Run, a SHELL-cmd!"), vec!["run", "shell", "cmd"]);
    assert_eq!(tokenize_query("É à ÉTÉ"), vec!["été"]);
}

#[test]
fn rankings_fall() {
    let catalog = sample_catalog();
    let ranked = suggest_catalog(&catalog, "apply a code patch", 8);
    for pair in ranked.windows(2) {
        assert!(pair[0].1 >= pair[1].1);
    }
    let tokens = tokenize_query("patch");
    assert!(
        catalog_score(&catalog[0], "patch", &tokens) > catalog_score(&catalog[2], "patch", &tokens)
    );
    assert_eq!(search_catalog(&catalog, "web", 8), vec![3]);
}

// ---------------------------------------------------------------- images

const PNG_MAGIC: [u8; 12] = [0x89, 0x50, 0x4E, 0x47, 0x0D, 0x0A, 0x1A, 0x0A, 0, 0, 0, 0];

fn step(path: &str, entry: Entry) -> Ancestor {
    Ancestor {
        path: path.to_string(),
        entry,
    }
}

#[test]
fn view_image_reports_format_and_size_for_png() {
    let tool = ViewImageTool::new("/ws");
    assert_eq!(tool.request(Some("logo.png")).unwrap(), "logo.png");
    let result = tool.show("logo.png", &PNG_MAGIC, PNG_MAGIC.len() as u64);
    assert!(result.success, "{}", result.output);
    let payload = json(&result.output);
    assert_eq!(payload.get_text("format").unwrap(), "png");
    assert_eq!(payload.get_text("mime_type").unwrap(), "image/png");
    assert_eq!(payload.get("byte_length").unwrap().as_unsigned(), Some(12));
    assert_eq!(meta(&result, "codex_tool"), "\"view_image\"");
    assert_eq!(meta(&result, "format"), "\"png\"");
}

#[test]
fn view_image_host_scope_accepts_path_outside_workspace_per_1153() {
    let tool = ViewImageTool::new("/ws").with_filesystem_scope(FilesystemScope::Host);
    let walk = vec![
        step("/tmp/host.png", Entry::Plain),
        step("/tmp", Entry::Link),
    ];
    assert!(tool.check_links(&walk, false).is_ok());
    let result = tool.show("/tmp/host.png", &PNG_MAGIC, 12);
    assert!(result.success);
}

#[test]
fn view_image_host_scope_still_rejects_leaf_symlink_per_1153() {
    let tool = ViewImageTool::new("/ws").with_filesystem_scope(FilesystemScope::Host);
    let walk = vec![
        step("/tmp/link.png", Entry::Link),
        step("/tmp", Entry::Plain),
    ];
    assert!(tool.check_links(&walk, false).is_err());
}

#[test]
fn view_image_fails_when_path_missing() {
    let result = ViewImageTool::new("/ws").unreadable("absent.png", "No such file");
    assert!(!result.success);
    assert_eq!(meta(&result, "codex_tool"), "\"view_image\"");
    assert_eq!(meta(&result, "error_kind"), "\"coding_tool_missing\"");
    assert!(ViewImageTool::new("/ws").request(None).is_err());
}

#[test]
fn view_image_rejects_non_image_file() {
    let result = ViewImageTool::new("/ws").show("notes.txt", b"hello, not an image", 19);
    assert!(!result.success);
    assert_eq!(meta(&result, "reason"), "\"unrecognised_image_format\"");
}

#[test]
fn view_image_rejects_symlinked_target() {
    let tool = ViewImageTool::new("/ws");
    let walk = vec![step("/ws/link.png", Entry::Link), step("/ws", Entry::Plain)];
    assert!(tool.check_links(&walk, false).is_err());
}

#[test]
fn view_image_rejects_parent_symlink_directory() {
    let tool = ViewImageTool::new("/ws");
    let walk = vec![
        step("/ws/imgs/real.png", Entry::Plain),
        step("/ws/imgs", Entry::Link),
        step("/ws", Entry::Plain),
    ];
    assert!(tool.check_links(&walk, false).is_err());
}

#[test]
fn links_above_the_root_do_not_matter() {
    let walk = vec![
        step("/ws/a.png", Entry::Plain),
        step("/ws", Entry::Plain),
        step("/", Entry::Link),
    ];
    assert!(reject_symlink_ancestors(&walk, "/ws", false).is_ok());
    assert!(reject_symlink_ancestors(&walk, "/", false).is_err());
    assert!(reject_symlink_ancestors(&walk, "/ws/", false).is_ok());
    assert!(reject_symlink_ancestors(&walk, "/./ws", false).is_ok());
    assert!(reject_symlink_ancestors(&walk, "/x/../ws", false).is_err());
    assert!(reject_leaf_symlink(&walk[0]).is_ok());
    assert!(reject_leaf_symlink(&step("/ws/a", Entry::Failed("denied".to_string()))).is_err());
    assert!(reject_leaf_symlink(&step("/ws/a", Entry::Missing)).is_ok());
}

#[test]
fn image_formats_are_told_by_their_first_bytes() {
    assert_eq!(detect_image_format(&PNG_MAGIC), Some(ImageFormat::Png));
    assert_eq!(
        detect_image_format(&[0xFF, 0xD8, 0xFF, 0xE0]),
        Some(ImageFormat::Jpeg)
    );
    assert_eq!(detect_image_format(b"GIF89a.."), Some(ImageFormat::Gif));
    assert_eq!(
        detect_image_format(b"RIFF\x00\x00\x00\x00WEBPVP8 "),
        Some(ImageFormat::Webp)
    );
    assert_eq!(detect_image_format(b"BM......"), Some(ImageFormat::Bmp));
    assert_eq!(
        detect_image_format(b"<svg xmlns=\"http://www.w3.org/2000/svg\">"),
        Some(ImageFormat::Svg)
    );
    assert_eq!(detect_image_format(b""), None);
    assert_eq!(ImageFormat::Svg.mime_type(), "image/svg+xml");
    assert_eq!(ImageFormat::Jpeg.name(), "jpeg");
}

#[test]
fn image_generation_returns_typed_unsupported_envelope() {
    let result = ImageGenerationTool::new().execute(
        Some("a snowy cabin at dusk, watercolour"),
        &Some("1024x1024".to_string()),
        Some(1),
    );
    assert!(
        !result.success,
        "stub must not claim success while no backend is bound"
    );
    assert_eq!(meta(&result, "codex_tool"), "\"image_generation\"");
    assert_eq!(meta(&result, "error_kind"), "\"coding_tool_unsupported\"");
    assert_eq!(meta(&result, "reason"), "\"no_backend_bound\"");
    let echoed = json(&meta(&result, "accepted_input"));
    assert_eq!(
        echoed.get_text("prompt").unwrap(),
        "a snowy cabin at dusk, watercolour"
    );
    assert_eq!(echoed.get_text("size").unwrap(), "1024x1024");
    assert_eq!(echoed.get("n").unwrap().as_unsigned(), Some(1));
}

#[test]
fn image_generation_rejects_missing_prompt() {
    let result = ImageGenerationTool::new().execute(None, &None, None);
    assert!(!result.success);
    assert_eq!(meta(&result, "error_kind"), "\"coding_tool_denied\"");
    assert_eq!(meta(&result, "reason"), "\"missing_prompt\"");
}

#[test]
fn image_generation_rejects_whitespace_only_prompt() {
    let result = ImageGenerationTool::new().execute(Some("   \n\t  "), &None, None);
    assert!(!result.success);
    assert_eq!(meta(&result, "error_kind"), "\"coding_tool_denied\"");
    assert_eq!(meta(&result, "reason"), "\"missing_prompt\"");
}

#[test]
fn image_generation_schema_pins_canonical_input_shape() {
    let tool = ImageGenerationTool::new();
    assert_eq!(tool.name(), "image_generation");
    let schema = tool.input_schema();
    assert_eq!(schema.get_text("type").unwrap(), "object");
    assert_eq!(render_json(schema.get("required").unwrap()), "[\"prompt\"]");
    let props = schema.get("properties").expect("properties");
    assert!(matches!(props, Json::Object(_)));
    assert!(props.get("prompt").is_some());
    assert!(props.get("size").is_some());
    assert!(props.get("n").is_some());
}

#[test]
fn should_declare_element_schema_when_spawn_agent_items_is_array() {
    let schema = SpawnAgentTool::new().input_schema(&one_role());
    let items = schema.get("properties").unwrap().get("items").unwrap();

    assert_eq!(items.get_text("type").unwrap(), "array");
    let element = items.get("items").unwrap();
    assert_eq!(
        element.get_text("type").unwrap(),
        "object",
        "spawn_agent.items accepts structured Codex content items, so its array \
         must declare an object element schema"
    );
    let properties = element.get("properties").unwrap();
    assert!(matches!(properties.get("type"), Some(Json::Object(_))));
    assert!(matches!(properties.get("text"), Some(Json::Object(_))));
}

// ---------------------------------------------------------------- policies

#[test]
fn bash_is_filtered_when_policy_denies_runtime_group() {
    let deny = vec!["group:runtime".to_string()];
    for tool in ["bash", "shell", "exec_command"] {
        assert!(
            any_entry_matches(&deny, tool),
            "{tool} must be filtered when policy denies group:runtime"
        );
    }
    assert!(!any_entry_matches(&deny, "read_file"));
}

#[test]
fn delegate_is_filtered_when_policy_denies_sessions_group() {
    let deny = vec!["group:sessions".to_string()];
    for tool in ["delegate", "spawn_agent", "wait_agent"] {
        assert!(
            any_entry_matches(&deny, tool),
            "{tool} must be filtered when policy denies group:sessions"
        );
    }
}

// ---------------------------------------------------------------- values

#[test]
fn json_texts_are_read_and_written() {
    let value = json(r#" {"b": [1, -2, 1.5, true, null], "a": "é\n"} "#);
    assert_eq!(value.get("a").unwrap().as_text().unwrap(), "é\n");
    assert_eq!(
        render_json(&value),
        "{\"a\":\"é\\n\",\"b\":[1,-2,1.5,true,null]}"
    );
    assert!(parse_json("{").is_none());
    let copy = value.copy();
    assert_eq!(render_json(&copy), render_json(&value));
}

#[test]
fn toml_texts_are_read() {
    let value = parse_toml("name = \"tiny\"\n[tools]\nkind = \"allow\"\n").expect("toml");
    assert_eq!(value.get_text("name").unwrap(), "tiny");
    assert_eq!(
        value.get("tools").unwrap().get_text("kind").unwrap(),
        "allow"
    );
    assert!(parse_toml("name = ").is_none());
}
