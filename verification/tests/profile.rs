//! Profiles: manifests, the filter of tools, and where a profile is looked for.

use octos_agent::policy::{entry_matches, tool_group_info};
use octos_agent::profile::{
    expand_tilde, is_toml, looks_like_path, AgentDefinitions, McpServerRef, PermissionMode,
    ProfileCompactionPolicy, ProfileDefinition, ProfileError, ProfileLookup, ProfileSource,
    ProfileTools, ToolRegistry,
};
use octos_agent::codec::{parse_json, render_json};

#[test]
fn should_parse_minimum_valid_profile() {
    let json = r#"{"name": "tiny", "version": 1}"#;
    let def = ProfileDefinition::from_json_str(json).expect("parse");
    assert_eq!(def.name, "tiny");
    assert_eq!(def.version, 1);
    assert!(def.description.is_none());
    assert!(matches!(def.tools, ProfileTools::Default));
    assert!(def.mcp_servers.is_empty());
    assert_eq!(def.permissions, PermissionMode::Default);
    assert!(def.compaction_policy.is_none());
    assert!(def.model_preferences.is_none());
    assert!(def.system_prompt_template.is_none());
    assert!(def.agents.is_empty());
}

#[test]
fn should_parse_full_profile_with_all_fields() {
    let json = r#"{
        "name": "full",
        "version": 1,
        "description": "kitchen-sink profile",
        "tools": {"mode": "allow_list", "tools": ["shell", "group:fs"]},
        "mcp_servers": [{"id": "jiuwenclaw"}],
        "permissions": "restricted",
        "compaction_policy": {
            "token_budget": 8000,
            "preflight_threshold": 12000,
            "tiers": {"tier_1": 2000, "tier_2": 4000}
        },
        "model_preferences": {
            "default": "acme/standard-4",
            "fast": "acme/quick",
            "strong": "acme/strong-5"
        },
        "system_prompt_template": "prompts/coder.md",
        "agents": ["research-worker", "repo-editor"]
    }"#;

    let def = ProfileDefinition::from_json_str(json).expect("parse");
    assert_eq!(def.name, "full");
    assert_eq!(def.description.as_deref(), Some("kitchen-sink profile"));
    match &def.tools {
        ProfileTools::AllowList { tools } => {
            assert_eq!(tools, &vec!["shell".to_string(), "group:fs".to_string()]);
        }
        other => panic!("expected AllowList, got {other:?}"),
    }
    assert_eq!(def.mcp_servers.len(), 1);
    assert_eq!(def.mcp_servers[0].id, "jiuwenclaw");
    assert_eq!(def.permissions, PermissionMode::Restricted);
    let compaction = def.compaction_policy.as_ref().expect("compaction present");
    assert_eq!(compaction.token_budget, Some(8000));
    assert_eq!(compaction.preflight_threshold, Some(12000));
    assert!(compaction.tiers.contains(&("tier_1".to_string(), 2000)));
    let prefs = def
        .model_preferences
        .as_ref()
        .expect("model preferences present");
    assert_eq!(prefs.default.as_deref(), Some("acme/standard-4"));
    assert_eq!(prefs.fast.as_deref(), Some("acme/quick"));
    assert_eq!(prefs.strong.as_deref(), Some("acme/strong-5"));
    assert_eq!(def.system_prompt_template.as_deref(), Some("prompts/coder.md"));
    assert_eq!(def.agents, vec!["research-worker", "repo-editor"]);
}

#[test]
fn should_accept_profile_with_unknown_fields_for_forward_compat() {
    let json = r#"{
        "name": "future-proof",
        "version": 1,
        "tools": {"mode": "default"},
        "new_v2_field": {"nested": true},
        "another_extra": 99
    }"#;
    let def = ProfileDefinition::from_json_str(json).expect("parse");
    assert_eq!(def.name, "future-proof");
    assert!(matches!(def.tools, ProfileTools::Default));
}

#[test]
fn should_resolve_profile_name_to_builtin() {
    let coding = ProfileDefinition::builtin("coding").expect("coding builtin");
    assert_eq!(coding.name, "coding");
    assert_eq!(coding.version, 1);
    assert!(matches!(coding.tools, ProfileTools::AllowList { .. }));
    let full = ProfileDefinition::builtin("coding-full").expect("coding-full builtin");
    assert_eq!(full.name, "coding-full");
    assert!(matches!(full.tools, ProfileTools::Default));

    let swarm = ProfileDefinition::builtin("swarm").expect("swarm builtin");
    assert_eq!(swarm.name, "swarm");
    assert!(ProfileDefinition::builtin("does-not-exist").is_none());
}

#[test]
fn should_load_builtin_coding_profile_without_error() {
    let coding = ProfileDefinition::builtin("coding").expect("coding");
    coding.validate().expect("valid");
    match &coding.tools {
        ProfileTools::AllowList { tools } => {
            for required in [
                "read_file",
                "write_file",
                "edit_file",
                "diff_edit",
                "group:runtime",
                "group:search",
                "group:memory",
                "spawn",
                "ask_user_question",
                "check",
                "update_plan",
                "tool_search",
            ] {
                assert!(
                    tools.contains(&required.to_string()),
                    "coding allow list must keep {required}, got {tools:?}",
                );
            }
            for excluded in [
                "group:fs",
                "apply_patch",
                "group:web",
                "group:research",
                "group:media",
                "run_pipeline",
                "synthesize_research",
                "message",
                "cron",
            ] {
                assert!(
                    !tools.contains(&excluded.to_string()),
                    "coding allow list must not name {excluded}",
                );
            }
        }
        other => panic!("coding must declare a lean allow list, got {other:?}"),
    }
    assert!(coding.compaction_policy.is_none());
    assert_eq!(coding.permissions, PermissionMode::Default);
    assert!(coding.agents.contains(&"research-worker".to_string()));
    assert!(coding.agents.contains(&"repo-editor".to_string()));
}

#[test]
fn should_load_builtin_coding_full_profile_as_unfiltered_escape_hatch() {
    let full = ProfileDefinition::builtin("coding-full").expect("coding-full");
    full.validate().expect("valid");
    assert!(
        matches!(full.tools, ProfileTools::Default),
        "coding-full must not filter tools",
    );
    assert!(full.compaction_policy.is_none());
    assert_eq!(full.permissions, PermissionMode::Default);
    let coding = ProfileDefinition::builtin("coding").expect("coding");
    assert_eq!(full.agents, coding.agents);
    assert!(ProfileDefinition::builtin_ids().contains(&"coding-full".to_string()));
}

#[test]
fn profile_tools_allows_mirrors_filter_matching() {
    assert!(ProfileTools::Default.allows("anything"));

    let allow = ProfileTools::AllowList {
        tools: vec!["group:fs".into(), "exec*".into(), "spawn".into()],
    };
    assert!(allow.allows("read_file"), "group member must match");
    assert!(allow.allows("exec_command"), "wildcard must match");
    assert!(allow.allows("spawn"), "exact name must match");
    assert!(!allow.allows("web_search"));
    let empty = ProfileTools::AllowList { tools: vec![] };
    assert!(empty.allows("web_search"));

    let deny = ProfileTools::DenyList {
        tools: vec!["group:web".into()],
    };
    assert!(!deny.allows("web_fetch"), "denied group member");
    assert!(deny.allows("read_file"));
    let empty_deny = ProfileTools::DenyList { tools: vec![] };
    assert!(empty_deny.allows("web_fetch"));
}

#[test]
fn should_load_builtin_swarm_profile_without_error() {
    let swarm = ProfileDefinition::builtin("swarm").expect("swarm");
    swarm.validate().expect("valid");
    match &swarm.tools {
        ProfileTools::AllowList { tools } => {
            assert!(tools.contains(&"send_to_agent".to_string()));
            assert!(tools.contains(&"cancel_task".to_string()));
            assert!(tools.contains(&"relaunch_task".to_string()));
        }
        other => panic!("swarm must declare an allow list, got {other:?}"),
    }
    assert!(swarm.tools.allows("run_pipeline"));
    assert!(!swarm.agents.is_empty());
}

#[test]
fn builtin_swarm_profile_references_only_existing_agent_definitions() {
    let swarm = ProfileDefinition::builtin("swarm").expect("swarm");
    let registry = AgentDefinitions::with_builtins();
    let unknown = swarm.unknown_agent_ids(&registry);
    assert!(
        unknown.is_empty(),
        "built-in swarm profile must reference only existing manifests, \
         missing: {unknown:?}"
    );
}

#[test]
fn profile_permissions_affect_tool_context_when_restricted() {
    let coding = ProfileDefinition::builtin("coding").expect("coding");
    assert_eq!(coding.permissions, PermissionMode::Default);

    let restricted = ProfileDefinition::from_json_str(
        r#"{"name": "locked", "version": 1, "permissions": "restricted"}"#,
    )
    .expect("parse restricted");
    assert_eq!(restricted.permissions, PermissionMode::Restricted);
    assert_ne!(coding.permissions, restricted.permissions);
}

fn failure(r: Result<ProfileDefinition, ProfileError>) -> String {
    match r {
        Ok(def) => panic!("expected an error, got {def:?}"),
        Err(e) => e.message(),
    }
}

#[test]
fn should_reject_profile_with_version_mismatch() {
    let json = r#"{"name": "future", "version": 42}"#;
    let msg = failure(ProfileDefinition::from_json_str(json));
    assert!(msg.contains("version") && msg.contains("42"), "{msg}");
    assert_eq!(msg, "profile 'future' has unsupported schema version 42 (expected 1)");
}

#[test]
fn should_reject_profile_with_empty_name() {
    let json = r#"{"name": "   ", "version": 1}"#;
    let msg = failure(ProfileDefinition::from_json_str(json));
    assert!(msg.contains("name"), "{msg}");
}

#[test]
fn should_round_trip_profile_through_json() {
    let original = ProfileDefinition {
        name: "rt".to_string(),
        version: 1,
        description: Some("round-trip".to_string()),
        tools: ProfileTools::DenyList { tools: vec!["web_fetch".to_string()] },
        mcp_servers: vec![McpServerRef { id: "hermes".to_string() }],
        permissions: PermissionMode::Default,
        compaction_policy: Some(ProfileCompactionPolicy {
            token_budget: Some(2048),
            preflight_threshold: None,
            tiers: Vec::new(),
        }),
        model_preferences: None,
        system_prompt_template: None,
        agents: vec!["repo-editor".to_string()],
    };
    let text = original.to_json_str();
    assert_eq!(text, render_json(&original.to_json()));
    let round = ProfileDefinition::from_json_str(&text).expect("read back");
    assert_eq!(format!("{round:?}"), format!("{original:?}"));
    assert!(!text.contains("model_preferences"), "{text}");
}

#[test]
fn should_parse_profile_tools_variants() {
    let read = |tools: &str| {
        let text = format!(r#"{{"name": "t", "version": 1, "tools": {tools}}}"#);
        ProfileDefinition::from_json_str(&text).expect("parse").tools
    };
    assert!(matches!(read(r#"{"mode": "default"}"#), ProfileTools::Default));
    match read(r#"{"mode": "allow_list", "tools": ["shell"]}"#) {
        ProfileTools::AllowList { tools } => assert_eq!(tools, vec!["shell".to_string()]),
        other => panic!("expected allow_list, got {other:?}"),
    }
    match read(r#"{"mode": "deny_list", "tools": ["web_fetch"]}"#) {
        ProfileTools::DenyList { tools } => assert_eq!(tools, vec!["web_fetch".to_string()]),
        other => panic!("expected deny_list, got {other:?}"),
    }
}

#[test]
fn malformed_manifests_are_refused() {
    for bad in [
        r#"[]"#,
        r#"{"version": 1}"#,
        r#"{"name": "x"}"#,
        r#"{"name": "x", "version": -1}"#,
        r#"{"name": "x", "version": 4294967296}"#,
        r#"{"name": "x", "version": 1, "tools": {"mode": "other"}}"#,
        r#"{"name": "x", "version": 1, "tools": {"mode": "allow_list", "tools": [1]}}"#,
        r#"{"name": "x", "version": 1, "permissions": "all"}"#,
        r#"{"name": "x", "version": 1, "mcp_servers": [{}]}"#,
        r#"{"name": "x", "version": 1, "compaction_policy": {"tiers": {"a": "b"}}}"#,
        r#"{"name": "x", "version": 1, "model_preferences": 3}"#,
        r#"{"name": "x", "version": 1, "agents": null}"#,
    ] {
        let r = ProfileDefinition::from_json_str(bad);
        assert!(matches!(r, Err(ProfileError::NotJson)), "{bad}");
        let value = parse_json(bad).expect("json");
        let r = ProfileDefinition::from_json(&value);
        assert!(matches!(r, Err(ProfileError::Malformed)), "{bad}");
    }
    assert!(matches!(ProfileDefinition::from_json_str("{"), Err(ProfileError::NotJson)));
}

#[test]
fn a_manifest_may_list_its_members_in_order() {
    let def = ProfileDefinition::from_json_str(
        r#"["t", 1, "d", ["deny_list", ["x"]], [["s"]], {"restricted": null}, [7], [null, "f"]]"#,
    )
    .expect("parse");
    assert_eq!(def.name, "t");
    assert_eq!(def.description.as_deref(), Some("d"));
    assert!(matches!(&def.tools, ProfileTools::DenyList { tools } if tools == &vec!["x".to_string()]));
    assert_eq!(def.mcp_servers[0].id, "s");
    assert_eq!(def.permissions, PermissionMode::Restricted);
    assert_eq!(def.compaction_policy.expect("policy").token_budget, Some(7));
    assert_eq!(def.model_preferences.expect("preferences").fast.as_deref(), Some("f"));
    assert!(def.agents.is_empty());
    for bad in [
        r#"["t"]"#,
        r#"["t", 1, null, null]"#,
        r#"["t", 1, null, ["default", 2]]"#,
        r#"["t", 1, null, ["allow_list", [], 2]]"#,
        r#"["t", 1, null, ["default"], [["s", 2]]]"#,
        r#"["t", 1, null, ["default"], [], {"default": {}}]"#,
        r#"["t", 1, null, ["default"], [], {"default": null, "restricted": null}]"#,
        r#"["t", 1, null, ["default"], [], "default", [1, 2, {}, 4]]"#,
        r#"["t", 1, null, ["default"], [], "default", null, null, null, [], 11]"#,
    ] {
        assert!(ProfileDefinition::from_json_str(bad).is_err(), "{bad}");
    }
    let toml = "name = \"t\"\nversion = 1\nmcp_servers = [[\"s\", 2]]\npermissions = { restricted = {} }\n";
    let def = ProfileDefinition::from_toml_str(toml).expect("parse");
    assert_eq!(def.mcp_servers[0].id, "s");
    assert_eq!(def.permissions, PermissionMode::Restricted);
}

#[test]
fn a_manifest_may_be_written_in_toml() {
    let text = "name = \"t\"\nversion = 1\nagents = [\"a\"]\n[tools]\nmode = \"deny_list\"\ntools = [\"x\"]\n";
    let def = ProfileDefinition::from_toml_str(text).expect("parse");
    assert_eq!(def.name, "t");
    assert_eq!(def.agents, vec!["a".to_string()]);
    assert!(matches!(&def.tools, ProfileTools::DenyList { tools } if tools == &vec!["x".to_string()]));
    assert!(matches!(ProfileDefinition::from_toml_str("= 1"), Err(ProfileError::NotToml)));
    assert!(matches!(ProfileDefinition::from_toml_str("name = \"t\""), Err(ProfileError::NotToml)));
    assert_eq!(ProfileDefinition::from_file("/p/profile.TOML", text, false).expect("toml").name, "t");
    let e = ProfileDefinition::from_file("/p/profile.json", text, false).expect_err("not JSON");
    assert_eq!(e.message(), "failed to parse profile at /p/profile.json");
    assert!(matches!(
        e,
        ProfileError::InFile { path, cause }
            if path == "/p/profile.json" && cause == "failed to parse ProfileDefinition as JSON"
    ));
    assert!(is_toml("a.toml/.", false) && !is_toml(r"\\s\t.toml", true) && !is_toml("C:.toml", true));
    assert!(is_toml(r"C:\a\b.TOML", true) && !is_toml(r"a\.toml", true));
    assert!(!is_toml("/p/.toml", false) && !is_toml("toml", false) && is_toml("a.toml", false));
}

#[test]
fn should_resolve_profile_path_to_file() {
    let arg = "/tmp/custom.json";
    match ProfileDefinition::lookup(arg, None, false) {
        ProfileLookup::File(path) => assert_eq!(path, arg),
        other => panic!("expected a file, got {other:?}"),
    }
    let found = ProfileDefinition::from_file(
        arg,
        r#"{"name": "custom", "version": 1, "description": "from disk"}"#,
        false,
    );
    let (def, source) =
        ProfileDefinition::load_with_home(arg, false, Some(found)).expect("load from path");
    assert_eq!(def.name, "custom");
    assert_eq!(def.description.as_deref(), Some("from disk"));
    assert_eq!(source, ProfileSource::ExplicitPath);
}

#[test]
fn should_resolve_profile_name_via_user_dir() {
    match ProfileDefinition::lookup("alpha", Some("/home/u"), false) {
        ProfileLookup::Named(paths) => assert_eq!(
            paths,
            vec![
                "/home/u/.octos/profiles/alpha/profile.toml".to_string(),
                "/home/u/.octos/profiles/alpha/profile.json".to_string(),
            ]
        ),
        other => panic!("expected names, got {other:?}"),
    }
    let found = ProfileDefinition::from_json_str(r#"{"name": "alpha", "version": 1}"#);
    let (def, source) =
        ProfileDefinition::load_with_home("alpha", false, Some(found)).expect("load from user dir");
    assert_eq!(def.name, "alpha");
    assert_eq!(source, ProfileSource::UserDir);
}

#[test]
fn should_resolve_builtin_when_user_dir_missing() {
    let (def, source) =
        ProfileDefinition::load_with_home("coding", false, None).expect("load builtin");
    assert_eq!(def.name, "coding");
    assert_eq!(source, ProfileSource::Builtin);
}

#[test]
fn should_reject_unknown_profile_name() {
    let msg = match ProfileDefinition::load_with_home("no-such-profile", false, None) {
        Ok(_) => panic!("expected an error"),
        Err(e) => e.message(),
    };
    assert!(msg.contains("no-such-profile"), "{msg}");
    assert!(msg.contains("(coding, coding-full, swarm)"), "{msg}");
    assert!(ProfileDefinition::load_with_home("/no/file", false, None).is_err());
}

#[test]
fn coding_profile_narrows_registry_to_core_coding_loop() {
    let mut tools = ToolRegistry::new();
    let kept = [
        "read_file", "write_file", "edit_file", "diff_edit", "bash", "shell", "exec_command",
        "write_stdin", "glob", "grep", "list_dir", "recall", "spawn", "check", "update_plan",
        "tool_search", "ask_user_question",
    ];
    let dropped = [
        "apply_patch", "web_search", "web_fetch", "browser", "get_weather", "synthesize_research",
        "image_generation", "workspace_diff", "spawn_agent", "delegate",
    ];
    for name in kept.iter().chain(dropped.iter()) {
        tools.register(name, false);
    }
    let coding = ProfileDefinition::builtin("coding").expect("coding");
    coding.apply_to_registry(&mut tools);
    let names: Vec<&str> = tools.tools.iter().map(|t| t.name.as_str()).collect();
    assert_eq!(names, kept);
}

#[test]
fn spawn_only_tools_survive_filter_so_bootstrap_gates_on_allows() {
    let mut tools = ToolRegistry::new();
    tools.register("run_pipeline", true);
    tools.register("read_file", false);

    let coding = ProfileDefinition::builtin("coding").expect("coding");
    coding.apply_to_registry(&mut tools);

    let names: Vec<String> = tools.tools.iter().map(|t| t.name.clone()).collect();
    assert!(names.contains(&"run_pipeline".to_string()), "{names:?}");
    assert!(!coding.tools.allows("run_pipeline"));
    let full = ProfileDefinition::builtin("coding-full").expect("coding-full");
    assert!(full.tools.allows("run_pipeline"));
}

#[test]
fn looks_like_path_classifies_arguments_correctly() {
    assert!(looks_like_path("/etc/profile.json", false));
    assert!(looks_like_path("./local.toml", false));
    assert!(looks_like_path("~/my-profile.json", false));
    assert!(looks_like_path("../shared.json", false));
    assert!(!looks_like_path("coding", false));
    assert!(!looks_like_path("swarm", false));
}

#[test]
fn looks_like_path_recognizes_windows_absolute_paths() {
    assert!(looks_like_path(r"C:\Users\me\custom.json", true));
    assert!(looks_like_path("C:/Users/me/custom.json", true));
    assert!(looks_like_path(r"\\?\C:\Users\me\custom.json", true));
    assert!(!looks_like_path("coding", true));
    assert!(looks_like_path(r"\\server\share\custom.json", true));
    assert!(!looks_like_path(r"\\server", true));
    assert!(!looks_like_path("C:/Users/me/custom.json", false));
}

#[test]
fn expand_tilde_resolves_against_home() {
    let home = "/opt/octos-home";
    assert_eq!(
        expand_tilde("~/profiles/foo.json", Some(home), false),
        "/opt/octos-home/profiles/foo.json",
    );
    assert_eq!(expand_tilde("~/profiles/foo.json", None, false), "~/profiles/foo.json");
}

#[test]
fn profile_load_fails_or_warns_on_unknown_agent_ids() {
    let mut profile = ProfileDefinition::builtin("coding").expect("coding");
    profile.agents = vec!["typo-worker".into()];

    let registry = AgentDefinitions::with_builtins();
    let unknown = profile.unknown_agent_ids(&registry);
    assert_eq!(unknown, vec!["typo-worker".to_string()]);

    let msg = match profile.validate_against_registry(&registry) {
        Ok(()) => panic!("expected an error"),
        Err(e) => e.message(),
    };
    assert!(msg.contains("typo-worker"), "{msg}");
    assert_eq!(
        msg,
        "profile 'coding' references agent_definition ids not present in the registry: [\"typo-worker\"] (available: [\"research-worker\", \"repo-editor\"])"
    );
    profile.agents = vec!["it's ~odd".into(), "repo-editor".into(), "second".into()];
    let e = profile.validate_against_registry(&registry).expect_err("two are unknown");
    assert!(e.message().contains("[\"it's ~odd\", \"second\"]"), "{}", e.message());
}

#[test]
fn codex_naming_aliases_are_covered_by_policy_groups() {
    let runtime = tool_group_info("group:runtime").expect("group:runtime registered");
    assert!(runtime.tools.contains(&"bash".to_string()), "{:?}", runtime.tools);
    let sessions = tool_group_info("group:sessions").expect("group:sessions registered");
    assert!(sessions.tools.contains(&"delegate".to_string()), "{:?}", sessions.tools);
}

#[test]
fn entries_match_by_group_prefix_or_name() {
    assert!(entry_matches("group:search", "grep"));
    assert!(!entry_matches("group:search", "shell"));
    assert!(!entry_matches("group:nothing", "grep"));
    assert!(entry_matches("*", "anything"));
    assert!(entry_matches("web_*", "web_fetch"));
    assert!(!entry_matches("web_", "web_fetch"));
    assert!(!entry_matches("", "x"));
}

#[test]
fn a_profile_of_which_nothing_is_said_narrows_nothing() {
    let def = ProfileDefinition::default();
    assert!(def.tools.allows("anything"));
    assert_eq!(def.version, 1);
    assert!(matches!(def.validate(), Err(ProfileError::NameMissing)));
    assert!(parse_json("{\"a\": 1}").is_some() && parse_json("{a}").is_none());
}
