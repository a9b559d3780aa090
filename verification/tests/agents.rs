//! Subagents: roles, spawn requests, waiting and closing.

use octos_agent::agents::{
    append_instruction, canonicalize_role, codex_items_text, resolve_role, RoleRegistry,
    RoleTemplate,
};
use octos_agent::codec::{parse_json, render_json};
use octos_agent::delegate::{stop_waiting, DelegateAliasTool};
use octos_agent::json::Json;
use octos_agent::spawn_agent::{recorded_failure, SpawnAgentTool, SpawnStep};
use octos_agent::tasks::{
    cancel_answer, close_step, newest_spawned_task, require_target, resume_answer, send_input,
    wait_step, AgentTargets, CloseAgentTool, Relaunch, ResumeAgentTool, SendInputTool, TaskRecord,
    TaskStatus, WaitAgentTool,
};
use octos_agent::tool::{ConcurrencyClass, ToolResult};

fn json(text: &str) -> Json {
    parse_json(text).expect("json")
}

fn texts(items: &[&str]) -> Vec<String> {
    items.iter().map(|i| i.to_string()).collect()
}

fn role(name: &str, display: &str, agent_types: &[&str], tools: &[&str]) -> RoleTemplate {
    RoleTemplate {
        name: name.to_string(),
        display_name: display.to_string(),
        agent_types: texts(agent_types),
        spawn_tools: texts(tools),
        default_sandbox_mode: "read-only".to_string(),
        default_approval_policy: "never".to_string(),
        model_preference: "fast".to_string(),
        summary: json("{}"),
    }
}

fn registry() -> RoleRegistry {
    RoleRegistry {
        templates: vec![
            role(
                "auditor",
                "Auditor",
                &["auditor"],
                &["glob", "grep", "list_dir", "read_file", "write_file"],
            ),
            role(
                "implementer",
                "Implementer",
                &["worker"],
                &[
                    "edit_file",
                    "send_input",
                    "resume_agent",
                    "wait_agent",
                    "close_agent",
                ],
            ),
            role("test_worker", "Test Worker", &["tester"], &["shell"]),
            role("explorer", "Explorer", &["explorer"], &["read_file"]),
        ],
    }
}

fn task(id: &str, status: TaskStatus, started_at: i64, input: Option<Json>) -> TaskRecord {
    TaskRecord {
        id: id.to_string(),
        status,
        runtime_state: "executing".to_string(),
        child_session_key: None,
        started_at,
        error: None,
        summary: None,
        output_files: Vec::new(),
        tool_input: input,
    }
}

fn plain(output: &str, success: bool) -> ToolResult {
    ToolResult {
        output: output.to_string(),
        success,
        file_modified: None,
        structured_metadata: None,
    }
}

/// The request that a call hands on, and the name of the role that it resolved to.
fn request(args: &str) -> (Json, Option<String>) {
    let registry = registry();
    let tool = SpawnAgentTool::with_delegate("spawn");
    let (request, role) = match tool.begin(&registry, &json(args), true) {
        SpawnStep::Delegate { request, role } => {
            let name = role.map(|r| r.name.clone());
            let record = task("t1", TaskStatus::Running, 1, None);
            let (result, projection) =
                tool.finish(&request, role, plain("spawned", true), Some(&record));
            assert!(result.success, "{}", result.output);
            assert_eq!(projection.map(|p| p.role), name);
            (request, name)
        }
        SpawnStep::Answer(result) => panic!("answered: {}", result.output),
        SpawnStep::RecordFailure => panic!("not delegated"),
    };
    (request, role)
}

fn tools_of(request: &Json) -> Vec<String> {
    match request.get("allowed_tools") {
        Some(Json::Array(items)) => items
            .iter()
            .filter_map(|i| i.as_text().cloned())
            .collect(),
        _ => Vec::new(),
    }
}

fn meta(result: &ToolResult, key: &str) -> String {
    let meta = result.structured_metadata.as_ref().expect("metadata");
    render_json(meta.get(key).expect("member"))
}

#[test]
fn spawn_agent_delegates_to_registered_spawn_tool() {
    let (input, _) = request(
        r#"{"message": "inspect parity", "agent_type": "worker", "reasoning_effort": "high"}"#,
    );
    assert_eq!(input.get_text("task").unwrap(), "inspect parity");
    assert_eq!(input.get_text("label").unwrap(), "codex-worker");
    assert_eq!(input.get_text("role").unwrap(), "implementer");
    assert!(input
        .get_text("additional_instructions")
        .unwrap()
        .contains("reasoning_effort: high"));
}

#[test]
fn spawn_agent_with_role_argument_uses_template_runtime_factory_per_971() {
    let (input, role) = request(r#"{"message": "audit PR #1234", "role": "auditor"}"#);
    assert_eq!(role.as_deref(), Some("auditor"));
    assert_eq!(
        tools_of(&input),
        texts(&["glob", "grep", "list_dir", "read_file", "write_file"])
    );
    assert_eq!(input.get_text("role").unwrap(), "auditor");
}

#[test]
fn spawned_tasks_carry_the_policy_stamp_of_their_role() {
    let registry = registry();
    let tool = SpawnAgentTool::with_delegate("spawn");
    let args = json(r#"{"message": "audit PR #1234", "role": "auditor"}"#);
    match tool.begin(&registry, &args, true) {
        SpawnStep::Delegate { request, role } => {
            let record = task("t1", TaskStatus::Running, 1, None);
            let (result, projection) =
                tool.finish(&request, role, plain("spawned", true), Some(&record));
            let projection = projection.expect("a role spawn is labelled");
            assert_eq!(projection.task_id, "t1");
            assert_eq!(projection.stamp.get_text("role").unwrap(), "auditor");
            assert_eq!(meta(&result, "role"), "\"auditor\"");
            assert_eq!(
                json(&result.output).get_text("agent_id").unwrap(),
                "t1"
            );
        }
        _ => panic!("a known role must be delegated"),
    }
}

#[test]
fn m14_c_wiring_spawn_agent_forwards_role_and_caller_instructions_per_971() {
    let (input, _) = request(
        r#"{"message": "audit PR #1234", "role": "auditor",
            "additional_instructions": "CALLER_HINT_SENTINEL"}"#,
    );
    assert_eq!(input.get_text("role").unwrap(), "auditor");
    assert!(input
        .get_text("additional_instructions")
        .unwrap()
        .contains("CALLER_HINT_SENTINEL"));
}

#[test]
fn spawn_agent_role_with_agent_definition_id_defers_to_manifest_per_971() {
    let registry = registry();
    let tool = SpawnAgentTool::with_delegate("spawn");
    let args = json(
        r#"{"message": "implement #1234", "role": "implementer",
            "agent_definition_id": "research-worker"}"#,
    );
    match tool.begin(&registry, &args, true) {
        SpawnStep::Delegate { request, role } => {
            assert!(tools_of(&request).is_empty());
            assert_eq!(
                request.get_text("agent_definition_id").unwrap(),
                "research-worker"
            );
            assert_eq!(request.get_text("role").unwrap(), "implementer");
            let record = task("t1", TaskStatus::Running, 1, None);
            let (_, projection) =
                tool.finish(&request, role, plain("spawned", true), Some(&record));
            let stamp = projection.expect("stamp").stamp;
            assert_eq!(
                stamp
                    .get("policy_enforcement")
                    .unwrap()
                    .get_text("allowed_tools")
                    .unwrap(),
                "subject_to_manifest"
            );
            assert_eq!(
                stamp.get_text("agent_definition_id").unwrap(),
                "research-worker"
            );
        }
        _ => panic!("a known role must be delegated"),
    }
}

#[test]
fn spawn_agent_implementer_does_not_advertise_undelegated_spawn_agent_per_971() {
    let (input, _) = request(r#"{"message": "implement #1234", "role": "implementer"}"#);
    let allowed = tools_of(&input);
    assert!(!allowed.contains(&"spawn_agent".to_string()));
    assert!(!allowed.contains(&"spawn".to_string()));
    for delegated in ["send_input", "resume_agent", "wait_agent", "close_agent"] {
        assert!(allowed.contains(&delegated.to_string()));
    }
}

#[test]
fn spawn_agent_rejects_unknown_role_per_971() {
    let registry = registry();
    let tool = SpawnAgentTool::with_delegate("spawn");
    let args = json(r#"{"message": "audit PR #1234", "role": "audit"}"#);
    match tool.begin(&registry, &args, true) {
        SpawnStep::Answer(result) => {
            assert!(!result.success);
            assert!(result.output.contains("unknown role"), "{}", result.output);
            assert!(result.output.contains("audit"), "{}", result.output);
        }
        _ => panic!("an unknown role must be refused"),
    }
}

#[test]
fn spawn_agent_without_role_argument_preserves_1148_behavior() {
    let (input, role) = request(
        r#"{"message": "inspect parity", "agent_type": "worker", "reasoning_effort": "high"}"#,
    );
    assert_eq!(input.get_text("task").unwrap(), "inspect parity");
    assert_eq!(input.get_text("label").unwrap(), "codex-worker");
    assert_eq!(role.as_deref(), Some("implementer"));
    assert_eq!(input.get_text("role").unwrap(), "implementer");
}

#[test]
fn m14_c_wiring_blank_role_with_agent_type_resolves_template_per_971() {
    for blank in ["null", "\"\"", "\"   \""] {
        let (input, role) = request(&format!(
            r#"{{"message": "inspect parity", "agent_type": "worker", "role": {blank}}}"#
        ));
        assert_eq!(input.get_text("role").unwrap(), "implementer", "{blank}");
        assert_eq!(role.as_deref(), Some("implementer"), "{blank}");
    }
}

#[test]
fn m14_c_wiring_resolved_role_writes_canonical_name_per_971() {
    let (input, _) = request(r#"{"message": "audit PR #1234", "role": "  auditor  "}"#);
    assert_eq!(input.get_text("role").unwrap(), "auditor");
}

#[test]
fn m14_c_wiring_role_lookup_is_case_insensitive_per_971() {
    for spelling in ["Auditor", "AUDITOR", "  Auditor  ", " auditor "] {
        let (input, role) = request(&format!(
            r#"{{"message": "audit PR #1234", "role": "{spelling}"}}"#
        ));
        assert_eq!(role.as_deref(), Some("auditor"), "{spelling}");
        assert_eq!(input.get_text("role").unwrap(), "auditor", "{spelling}");
    }
}

#[test]
fn m14_c_wiring_display_label_role_normalizes_to_registry_key_per_971() {
    for (spelling, canonical) in [
        ("Test Worker", "test_worker"),
        ("Test-Worker", "test_worker"),
        ("TEST WORKER", "test_worker"),
        ("  test-worker  ", "test_worker"),
        ("Implementer", "implementer"),
        ("Explorer", "explorer"),
    ] {
        let (input, role) = request(&format!(r#"{{"message": "audit", "role": "{spelling}"}}"#));
        assert_eq!(role.as_deref(), Some(canonical), "{spelling}");
        assert_eq!(input.get_text("role").unwrap(), canonical, "{spelling}");
        assert_eq!(canonicalize_role(spelling), canonical);
        assert_eq!(canonicalize_role(canonical), canonical);
    }
}

#[test]
fn m14_c_wiring_unknown_agent_type_does_not_synthesize_role_per_971() {
    let (_, role) = request(r#"{"message": "inspect parity", "agent_type": "planner"}"#);
    assert!(role.is_none());
}

#[test]
fn spawn_agent_with_role_ignores_empty_allowed_tools_per_971() {
    let (input, _) =
        request(r#"{"message": "audit PR #1234", "role": "auditor", "allowed_tools": []}"#);
    let allowed = tools_of(&input);
    assert_eq!(
        allowed,
        texts(&["glob", "grep", "list_dir", "read_file", "write_file"])
    );
    for forbidden in ["edit_file", "shell", "exec_command"] {
        assert!(!allowed.contains(&forbidden.to_string()));
    }
}

#[test]
fn spawn_agent_with_role_honors_nonempty_allowed_tools_override_per_971() {
    let (input, _) = request(
        r#"{"message": "audit PR #1234", "role": "auditor", "allowed_tools": ["read_file", "grep"]}"#,
    );
    assert_eq!(tools_of(&input), texts(&["read_file", "grep"]));
}

#[test]
fn without_a_spawn_tool_the_failure_is_recorded() {
    let registry = registry();
    let tool = SpawnAgentTool::new();
    assert_eq!(tool.concurrency_class(), ConcurrencyClass::Exclusive);
    let args = json(r#"{"message": "inspect"}"#);
    assert!(matches!(
        tool.begin(&registry, &args, true),
        SpawnStep::RecordFailure
    ));
    match tool.begin(&registry, &args, false) {
        SpawnStep::Answer(result) => assert!(!result.success),
        _ => panic!("nothing can be recorded without a supervisor"),
    }
    let result = recorded_failure("t9");
    assert!(!result.success);
    assert!(result.output.contains("t9"), "{}", result.output);
}

#[test]
fn roles_resolve_by_name_before_type() {
    let registry = registry();
    let found = resolve_role(
        &registry,
        &json(r#"{"role": "explorer", "agent_type": "worker"}"#),
    );
    assert_eq!(found.unwrap().unwrap().name, "explorer");
    assert!(resolve_role(&registry, &json("{}")).unwrap().is_none());
}

#[test]
fn content_items_give_their_texts() {
    let args = json(
        r#"{"items": [{"type": "text", "text": "one"}, {"type": "image"}, {"text": "two"}, 3]}"#,
    );
    assert_eq!(
        codex_items_text(&args),
        texts(&["[text] one", "[item] two"])
    );
    assert_eq!(append_instruction(None, "b".to_string()).unwrap(), "b");
    assert_eq!(
        append_instruction(Some("a".to_string()), "b".to_string()).unwrap(),
        "a\nb"
    );
}

// ---------------------------------------------------------------- supervised tasks

#[test]
fn codex_agent_aliases_operate_on_supervisor_state() {
    assert_eq!(SendInputTool.name(), "send_input");
    assert_eq!(ResumeAgentTool.name(), "resume_agent");
    assert_eq!(WaitAgentTool.name(), "wait_agent");
    assert_eq!(CloseAgentTool.name(), "close_agent");

    let running = || {
        task(
            "a1",
            TaskStatus::Running,
            1,
            Some(json(r#"{"task": "initial"}"#)),
        )
    };
    let asked = json(r#"{"agent_id": "a1", "message": "continue with the notes"}"#);
    let (kept, sent) = send_input("a1", &asked, "2026-01-01T00:00:00Z", &Some(running()));
    assert!(sent.success, "{}", sent.output);
    let kept = kept.expect("kept input");
    assert_eq!(
        kept.get("original_tool_input")
            .unwrap()
            .get_text("task")
            .unwrap(),
        "initial"
    );
    assert_eq!(
        kept.get("last_codex_send_input")
            .unwrap()
            .get("request")
            .unwrap()
            .get_text("message")
            .unwrap(),
        "continue with the notes"
    );

    let targets = texts(&["a1"]);
    let waited = wait_step(&targets, &vec![Some(running())], 0, 0).expect("the wait is over");
    assert!(waited.success, "{}", waited.output);
    match json(&waited.output).get("agents") {
        Some(Json::Array(agents)) => {
            assert_eq!(agents[0].get_text("agent_id").unwrap(), "a1");
            assert_eq!(agents[0].get_text("status").unwrap(), "running");
        }
        other => panic!("no agents: {other:?}"),
    }
    assert!(wait_step(&targets, &vec![Some(running())], 0, 10).is_none());
    let done = task("a1", TaskStatus::Completed, 1, None);
    assert!(wait_step(&targets, &vec![Some(done)], 0, 10).is_some());

    assert!(close_step("a1", Some(TaskStatus::Running)).is_none());
    let closed = cancel_answer("a1", &Ok(()));
    assert!(closed.success, "{}", closed.output);
}

#[test]
fn closing_what_is_over_or_unknown_cancels_nothing() {
    assert!(close_step("a1", Some(TaskStatus::Completed)).is_some());
    assert!(close_step("a1", None).is_some());
    assert!(!cancel_answer("a1", &Err("gone".to_string())).success);
    assert!(!send_input("a1", &json("{}"), "now", &None).1.success);
}

#[test]
fn resuming_says_what_came_of_it() {
    assert!(resume_answer("a1", &Relaunch::Started("a2".to_string()))
        .output
        .contains("a2"));
    assert!(resume_answer("a1", &Relaunch::StillActive)
        .output
        .contains("a1"));
    assert!(!resume_answer("a1", &Relaunch::NotFound).success);
}

#[test]
fn targets_are_taken_from_any_of_their_members() {
    let sole = AgentTargets {
        target: Some("a".to_string()),
        agent_id: Some("b".to_string()),
        targets: texts(&["c"]),
        timeout_ms: None,
    };
    assert_eq!(sole.sole(), Some("a".to_string()));
    assert!(require_target("close_agent", &sole, true).is_ok());
    assert!(require_target("close_agent", &sole, false).is_err());
    let none = AgentTargets {
        target: None,
        agent_id: None,
        targets: Vec::new(),
        timeout_ms: Some(u64::MAX),
    };
    assert!(require_target("close_agent", &none, true).is_err());
    assert!(none.wait_ms() < u64::MAX);
    assert!(sole.all().contains(&"c".to_string()));
}

#[test]
fn the_newest_task_is_the_last_started_one_that_is_new() {
    let tasks = vec![
        task("old", TaskStatus::Running, 9, None),
        task("first", TaskStatus::Running, 3, None),
        task("second", TaskStatus::Running, 5, None),
    ];
    let newest = newest_spawned_task(&tasks, &texts(&["old"])).unwrap();
    assert_eq!(newest.id, "second");
    assert!(newest_spawned_task(&tasks, &texts(&["old", "first", "second"])).is_none());
}

// ---------------------------------------------------------------- delegate

#[test]
fn delegate_spawns_waits_and_returns_artifacts() {
    let tool = DelegateAliasTool::with_spawn_agent("spawn_agent");
    let start = tool
        .begin(
            &registry(),
            Some(&"auditor".to_string()),
            Some(&"look through the diff for unsafe regressions".to_string()),
            true,
        )
        .unwrap_or_else(|r| panic!("{}", r.output));
    assert_eq!(tool.timeout_ms(Some(5_000)), 5_000);
    let tasks = vec![task("t1", TaskStatus::Running, 1, None)];
    let id = start
        .started_task(&plain("spawned", true), &tasks, &Vec::new())
        .unwrap_or_else(|r| panic!("{}", r.output));
    assert_eq!(id, "t1");
    let mut done = task("t1", TaskStatus::Completed, 1, None);
    done.output_files = texts(&["delegate-output.txt"]);
    let last = Some(done);
    assert!(stop_waiting(&last, 0, 5_000));
    let result = start.finish(&id, &last);
    assert!(result.success, "{}", result.output);
    let payload = json(&result.output);
    assert_eq!(payload.get_text("role").unwrap(), "auditor");
    assert_eq!(payload.get_text("agent_id").unwrap(), "t1");
    assert!(matches!(payload.get("terminal"), Some(Json::Bool(true))));
    assert_eq!(payload.get_text("status").unwrap(), "completed");
    assert_eq!(
        render_json(payload.get("artifacts").unwrap()),
        "[\"delegate-output.txt\"]"
    );
    assert_eq!(meta(&result, "codex_tool"), "\"delegate\"");
    assert_eq!(meta(&result, "role"), "\"auditor\"");
}

#[test]
fn m14_c_wiring_delegate_pre_expands_role_allow_list_per_971() {
    let tool = DelegateAliasTool::with_spawn_agent("spawn_agent");
    let start = tool
        .begin(
            &registry(),
            Some(&"auditor".to_string()),
            Some(&"audit PR #1234".to_string()),
            true,
        )
        .unwrap_or_else(|r| panic!("{}", r.output));
    let allowed = tools_of(&start.request);
    for entry in &allowed {
        assert!(!entry.starts_with("group:"));
    }
    for expected in ["glob", "grep", "list_dir", "read_file"] {
        assert!(allowed.contains(&expected.to_string()));
    }
    assert_eq!(start.request.get_text("role").unwrap(), "auditor");
    assert!(render_json(&start.request).contains("audit PR #1234"));
}

#[test]
fn delegate_rejects_unknown_role() {
    let tool = DelegateAliasTool::with_spawn_agent("spawn_agent");
    let result = tool
        .begin(
            &registry(),
            Some(&"audit".to_string()),
            Some(&"do an audit".to_string()),
            true,
        )
        .err()
        .expect("an unknown role must be refused");
    assert!(!result.success);
    assert_eq!(meta(&result, "error_kind"), "\"coding_tool_denied\"");
    assert_eq!(meta(&result, "reason"), "\"unknown_role\"");
    assert_eq!(meta(&result, "role"), "\"audit\"");
}

#[test]
fn delegate_rejects_missing_task() {
    let tool = DelegateAliasTool::with_spawn_agent("spawn_agent");
    let result = tool
        .begin(&registry(), Some(&"auditor".to_string()), None, true)
        .err()
        .expect("a call without a task must be refused");
    assert!(!result.success);
    assert_eq!(meta(&result, "reason"), "\"missing_task\"");
}

#[test]
fn delegate_fails_when_spawn_agent_unbound() {
    let result = DelegateAliasTool::new()
        .begin(
            &registry(),
            Some(&"auditor".to_string()),
            Some(&"inspect".to_string()),
            true,
        )
        .err()
        .expect("nothing can be spawned");
    assert!(!result.success);
    assert_eq!(meta(&result, "error_kind"), "\"coding_tool_missing\"");
}

#[test]
fn delegate_lists_the_roles() {
    let tool = DelegateAliasTool::new();
    let description = tool.description(&registry());
    assert!(
        description.contains("(auditor / implementer / test_worker / explorer)"),
        "{description}"
    );
    assert_eq!(tool.tags(), texts(&["gateway", "code"]));
}

#[test]
fn waits_end_with_the_task_or_the_time() {
    let running = Some(task("t1", TaskStatus::Running, 1, None));
    assert!(!stop_waiting(&running, 10, 5_000));
    assert!(stop_waiting(&running, 5_000, 5_000));
}
