//! Reading checkers' output, and the tool that runs them.

use octos_agent::check::{
    detect_project, CheckPlan, CheckTool, Checker, Confinement, Markers, ProjectKind, ScopeFacts,
};
use octos_agent::diagnostics::{
    parse_cargo_json, parse_go_vet_output, parse_tsc_output, render_report, ParsedDiagnostics,
};
use octos_agent::json::Json;
use octos_agent::tool::ConcurrencyClass;

fn cargo_line(file: &str, line: u32, level: &str, code: Option<&str>, message: &str) -> String {
    let code_json = match code {
        Some(c) => format!(r#"{{"code":"{c}","explanation":null}}"#),
        None => "null".to_string(),
    };
    format!(
        r#"{{"reason":"compiler-message","package_id":"pkg 0.1.0","manifest_path":"Cargo.toml","target":{{"name":"pkg"}},"message":{{"rendered":"...","level":"{level}","message":"{message}","code":{code_json},"spans":[{{"file_name":"{file}","line_start":{line},"line_end":{line},"column_start":1,"column_end":2,"is_primary":true}}]}}}}"#
    )
}

#[test]
fn should_parse_cargo_compiler_message_lines_when_json_fixture() {
    let fixture = [
        cargo_line("src/main.rs", 3, "error", Some("E0308"), "mismatched types"),
        cargo_line("src/main.rs", 3, "error", Some("E0308"), "mismatched types"),
        cargo_line("src/lib.rs", 10, "warning", None, "unused variable: `x`"),
        r#"{"reason":"build-finished","success":false}"#.to_string(),
        cargo_line("src/lib.rs", 11, "note", None, "not reported"),
        "not json at all".to_string(),
    ]
    .join("\n");

    let parsed = parse_cargo_json(&fixture);
    assert_eq!(parsed.errors, 1, "deduped to a single error");
    assert_eq!(parsed.warnings, 1);
    assert_eq!(
        parsed.lines,
        vec![
            "src/main.rs:3: error[E0308]: mismatched types".to_string(),
            "src/lib.rs:10: warning: unused variable: `x`".to_string(),
        ]
    );
}

#[test]
fn should_skip_cargo_run_summary_messages() {
    let summary = |level: &str, message: &str| {
        format!(
            r#"{{"reason":"compiler-message","package_id":"pkg 0.1.0","manifest_path":"Cargo.toml","target":{{"name":"pkg"}},"message":{{"rendered":"{message}\n","level":"{level}","message":"{message}","code":null,"spans":[]}}}}"#
        )
    };
    let fixture = [
        cargo_line("src/main.rs", 3, "error", Some("E0308"), "mismatched types"),
        cargo_line("src/lib.rs", 10, "warning", None, "unused variable: `x`"),
        summary(
            "error",
            "aborting due to 1 previous error; 1 warning emitted",
        ),
        summary("error", "aborting due to 2 previous errors"),
        summary("warning", "3 warnings emitted"),
        summary("warning", "1 warning emitted"),
        summary(
            "error",
            "Some errors have detailed explanations: E0308, E0432.",
        ),
        summary(
            "error",
            "For more information about an error, try `rustc --explain E0308`.",
        ),
    ]
    .join("\n");

    let parsed = parse_cargo_json(&fixture);
    assert_eq!(parsed.errors, 1, "summaries must not count as errors");
    assert_eq!(parsed.warnings, 1, "summaries must not count as warnings");
    assert_eq!(parsed.lines.len(), 2, "lines: {:?}", parsed.lines);
}

#[test]
fn should_render_cargo_diagnostic_without_span_when_spans_empty() {
    let fixture = r#"{"reason":"compiler-message","message":{"level":"error","message":"linker failure","code":null,"spans":[]}}"#;
    let parsed = parse_cargo_json(fixture);
    assert_eq!(parsed.errors, 1);
    assert_eq!(parsed.lines, vec!["error: linker failure".to_string()]);
}

#[test]
fn should_cap_diagnostics_at_50_when_more_present() {
    let fixture: Vec<String> = (0..60)
        .map(|i| cargo_line("src/big.rs", i + 1, "error", None, &format!("problem {i}")))
        .collect();
    let parsed = parse_cargo_json(&fixture.join("\n"));
    assert_eq!(parsed.errors, 60);

    let report = render_report("cargo check", &parsed, Some(101), None);
    assert!(
        report.contains("60 errors"),
        "header must count ALL diagnostics: {report}"
    );
    assert!(report.contains("src/big.rs:50: error: problem 49"));
    assert!(
        !report.contains("problem 50"),
        "diagnostics past the cap must not be listed: {report}"
    );
    assert!(
        report.contains("... and 10 more diagnostics"),
        "capped remainder must be counted: {report}"
    );
}

#[test]
fn should_render_clean_report_when_no_diagnostics_and_exit_ok() {
    let report = render_report("cargo check", &ParsedDiagnostics::default(), Some(0), None);
    assert!(
        report.contains("cargo check") && report.contains("clean"),
        "clean run must say so: {report}"
    );
}

#[test]
fn should_include_raw_tail_when_checker_failed_without_diagnostics() {
    let report = render_report(
        "cargo check",
        &ParsedDiagnostics::default(),
        Some(101),
        Some("error: failed to parse manifest at `Cargo.toml`"),
    );
    assert!(
        report.contains("failed to parse manifest"),
        "raw tail must surface when nothing parsed: {report}"
    );
    assert!(report.contains("101"), "exit code surfaced: {report}");
}

#[test]
fn should_parse_tsc_lines_when_diagnostics_present() {
    let fixture = "\
src/index.ts(12,5): error TS2304: Cannot find name 'foo'.
src/util.ts(3,1): warning TS6133: 'x' is declared but its value is never read.
Found 2 errors in 2 files.
";
    let parsed = parse_tsc_output(fixture);
    assert_eq!(parsed.errors, 1);
    assert_eq!(parsed.warnings, 1);
    assert_eq!(
        parsed.lines,
        vec![
            "src/index.ts:12: error TS2304: Cannot find name 'foo'.".to_string(),
            "src/util.ts:3: warning TS6133: 'x' is declared but its value is never read."
                .to_string(),
        ]
    );
}

#[test]
fn should_parse_tsc_line_when_path_contains_parentheses() {
    let fixture = "app/(group)/bad.ts(1,7): error TS2322: Type 'string' is not assignable to type 'number'.";
    let parsed = parse_tsc_output(fixture);
    assert_eq!(parsed.errors, 1, "paren-path diagnostic must parse");
    assert_eq!(
        parsed.lines,
        vec![
            "app/(group)/bad.ts:1: error TS2322: Type 'string' is not assignable to type 'number'."
                .to_string()
        ]
    );
}

#[test]
fn should_skip_tsc_prose_lines_with_parenthesized_fragments() {
    let fixture = "Watching for file changes (press h, then q): error reporting is enabled.";
    let parsed = parse_tsc_output(fixture);
    assert_eq!(parsed.errors + parsed.warnings, 0, "{:?}", parsed.lines);
}

#[test]
fn should_parse_go_vet_lines_when_findings_present() {
    let fixture = "\
# example.com/mymod
./main.go:10:2: unreachable code
vet: helper.go:4:6: undefined: missingFn
";
    let parsed = parse_go_vet_output(fixture);
    assert_eq!(parsed.errors, 2);
    assert_eq!(parsed.warnings, 0);
    assert_eq!(
        parsed.lines,
        vec![
            "./main.go:10:2: unreachable code".to_string(),
            "vet: helper.go:4:6: undefined: missingFn".to_string(),
        ]
    );
}

#[test]
fn should_name_failure_layer_when_recognizable() {
    let cases = [
        (
            "error: could not read settings file: '/Users/u/.rustup/settings.toml': Operation not permitted (os error 1)",
            "sandbox",
        ),
        (
            "error: could not find `Cargo.toml` in `/tmp` or any parent",
            "manifest",
        ),
        (
            "sh: cargo: command not found",
            "toolchain itself is missing",
        ),
        (
            "error: failed to download from `https://crates.io/...`",
            "registry/network",
        ),
    ];
    for (raw, expect) in cases {
        let report = render_report(
            "cargo check",
            &ParsedDiagnostics::default(),
            Some(1),
            Some(raw),
        );
        assert!(
            report.contains(expect),
            "expected layer '{expect}' named in: {report}"
        );
        assert!(
            report.contains(raw.trim()),
            "raw tail must still be present"
        );
    }
    let report = render_report(
        "cargo check",
        &ParsedDiagnostics::default(),
        Some(101),
        Some("thread panicked at ..."),
    );
    assert!(
        report.contains("no parseable diagnostics."),
        "no invented layer: {report}"
    );
}

fn markers(cargo_toml: bool, tsconfig_json: bool, go_mod: bool) -> Markers {
    Markers { cargo_toml, tsconfig_json, go_mod }
}

#[test]
fn should_detect_rust_project_when_cargo_toml_present() {
    assert_eq!(detect_project(markers(true, false, false)), Some(ProjectKind::Rust));
}

#[test]
fn should_detect_typescript_only_when_tsconfig_present() {
    assert_eq!(detect_project(markers(false, true, false)), Some(ProjectKind::TypeScript));
    assert_eq!(detect_project(markers(false, false, false)), None);
}

#[test]
fn should_detect_go_when_go_mod_with_tooling_only_package_json() {
    assert_eq!(detect_project(markers(false, false, true)), Some(ProjectKind::Go));
}

#[test]
fn should_detect_go_project_when_go_mod_present() {
    assert_eq!(detect_project(markers(false, false, true)), Some(ProjectKind::Go));
}

#[test]
fn should_detect_nothing_when_no_markers_present() {
    assert_eq!(detect_project(markers(false, false, false)), None);
}

#[test]
fn should_prefer_rust_when_multiple_markers_present() {
    assert_eq!(detect_project(markers(true, false, true)), Some(ProjectKind::Rust));
    assert_eq!(detect_project(markers(true, true, true)), Some(ProjectKind::Rust));
    assert_eq!(detect_project(markers(false, true, true)), Some(ProjectKind::TypeScript));
}

#[test]
fn should_be_exclusive_concurrency_class() {
    let tool = CheckTool::new("/tmp");
    assert_eq!(tool.concurrency_class(), ConcurrencyClass::Exclusive);
    assert_eq!(tool.name(), "check");
}

#[test]
fn should_report_checker_not_installed_when_binary_absent() {
    let tool = CheckTool::new("/work");
    let result = tool
        .plan("/work", detect_project(markers(false, false, true)), Checker::Missing)
        .expect_err("nothing to run");
    assert!(result.success, "{}", result.output);
    assert!(result.output.contains("checker not installed: go"), "{}", result.output);
}

#[test]
fn should_report_no_project_when_markers_missing() {
    let tool = CheckTool::new("/work");
    let result = tool
        .plan("/work", detect_project(markers(false, false, false)), Checker::Missing)
        .expect_err("nothing to run");
    assert!(result.success);
    assert!(result.output.contains("no supported project detected"), "{}", result.output);
    assert!(result.output.contains("Cargo.toml"));
}

#[test]
fn should_reject_path_outside_workspace_when_traversal_arg() {
    let tool = CheckTool::new("/work");
    let result = tool
        .scope(Some((
            "../outside".to_string(),
            ScopeFacts::Refused("path outside working directory".to_string()),
        )))
        .expect_err("refused");
    assert!(!result.success);
    assert_eq!(result.output, "check error: path outside working directory");
}

#[test]
fn should_reject_non_directory_path_when_file_given() {
    let tool = CheckTool::new("/work");
    let result = tool
        .scope(Some(("Cargo.toml".to_string(), ScopeFacts::Other)))
        .expect_err("no directory");
    assert!(!result.success);
    assert!(result.output.contains("not a directory"), "{}", result.output);
}

#[test]
fn a_check_runs_in_the_workspace_or_in_the_directory_asked_for() {
    let tool = CheckTool::new("/work");
    assert_eq!(tool.scope(None).unwrap(), "/work");
    let scoped = tool
        .scope(Some(("crates/a".to_string(), ScopeFacts::Directory("/work/crates/a".to_string()))))
        .unwrap();
    assert_eq!(scoped, "/work/crates/a");
}

#[test]
fn should_run_fake_checker_and_render_diagnostics() {
    let line_a = cargo_line("src/main.rs", 3, "error", Some("E0308"), "mismatched types");
    let line_b = cargo_line("src/lib.rs", 7, "warning", None, "unused import: `foo`");
    let tool = CheckTool::new("/work");
    let plan = tool
        .plan("/work", Some(ProjectKind::Rust), Checker::At("/work/fake-cargo.sh".to_string()))
        .expect("runs");
    match plan {
        CheckPlan::Direct { program, args, cwd } => {
            assert_eq!(program, "/work/fake-cargo.sh");
            assert_eq!(args, vec!["check".to_string(), "--message-format=json".to_string()]);
            assert_eq!(cwd, "/work");
        }
        other => panic!("expected a direct start, got {other:?}"),
    }

    let stdout = format!("{line_a}\n{line_b}\n");
    let result = tool.finish(ProjectKind::Rust, stdout.as_bytes(), b"", Some(101));
    assert!(result.success, "{}", result.output);
    assert!(result.output.contains("src/main.rs:3: error[E0308]: mismatched types"));
    assert!(result.output.contains("src/lib.rs:7: warning: unused import: `foo`"));
    assert!(result.output.contains("1 error") && result.output.contains("1 warning"));
    let meta = result.structured_metadata.expect("recorded");
    let validation = meta.get("validation").expect("validation");
    assert!(matches!(validation.get("schema"), Some(Json::Text(s)) if s == "octos.validation.v1"));
    assert!(matches!(validation.get("adapter"), Some(Json::Text(s)) if s == "check"));
    assert!(matches!(validation.get("ran"), Some(Json::Bool(true))));
    assert!(matches!(validation.get("errors"), Some(Json::Unsigned(1))));
    assert!(matches!(validation.get("warnings"), Some(Json::Unsigned(1))));
}

#[test]
fn should_run_checker_through_session_sandbox_when_real_sandbox_set() {
    let tool = CheckTool::new("/work").with_shared_sandbox(Confinement::Shell);
    let plan = tool
        .plan("/work", Some(ProjectKind::Rust), Checker::At("/fake/cargo".to_string()))
        .expect("runs");
    match plan {
        CheckPlan::Wrapped { command, cwd } => {
            assert!(command.starts_with("/fake/cargo check"), "{command}");
            assert!(command.contains("--message-format=json"), "{command}");
            assert_eq!(cwd, "/work");
        }
        other => panic!("expected a wrapped start, got {other:?}"),
    }

    let result = tool.finish(
        ProjectKind::Rust,
        b"SANDBOX-WRAPPED: /fake/cargo check\n",
        b"",
        Some(7),
    );
    assert!(result.success);
    assert!(result.output.contains("SANDBOX-WRAPPED: /fake/cargo check"), "{}", result.output);
    assert!(result.structured_metadata.is_none());
}

#[test]
fn a_checker_path_is_quoted_for_the_sandbox() {
    let tool = CheckTool::new("/work").with_shared_sandbox(Confinement::Shell);
    let plan = tool
        .plan("/work", Some(ProjectKind::Go), Checker::At("/my tools/go".to_string()))
        .expect("runs");
    match plan {
        CheckPlan::Wrapped { command, .. } => assert_eq!(command, "'/my tools/go' vet ./..."),
        other => panic!("expected a wrapped start, got {other:?}"),
    }
}

#[test]
fn a_checker_path_that_no_command_line_can_carry_is_refused() {
    let tool = CheckTool::new("/work").with_shared_sandbox(Confinement::Shell);
    let result = tool
        .plan("/work", Some(ProjectKind::Go), Checker::At("/a\0b".to_string()))
        .expect_err("refused");
    assert!(!result.success);
    assert!(result.output.contains("contains a NUL byte"), "{}", result.output);

    let result = tool
        .plan("/work", Some(ProjectKind::Go), Checker::Unreadable("/x\u{fffd}".to_string()))
        .expect_err("refused");
    assert_eq!(result.output, "check error: checker path is not valid UTF-8: /x\u{fffd}");
}

#[test]
fn a_checker_path_that_is_not_text_is_started_as_it_was_found() {
    let plan = CheckTool::new("/work")
        .plan("/work", Some(ProjectKind::Go), Checker::Unreadable("/x\u{fffd}".to_string()))
        .expect("runs");
    match plan {
        CheckPlan::Found { args, cwd } => {
            assert_eq!(args, vec!["vet".to_string(), "./...".to_string()]);
            assert_eq!(cwd, "/work");
        }
        other => panic!("expected the program that was found, got {other:?}"),
    }
}

#[test]
fn should_skip_check_when_sandbox_backend_cannot_wrap() {
    let tool = CheckTool::new("/work").with_shared_sandbox(Confinement::Foreign);
    let result = tool
        .plan("/work", Some(ProjectKind::Rust), Checker::At("/fake/cargo".to_string()))
        .expect_err("skipped");
    assert!(result.success, "{}", result.output);
    assert!(result.output.contains("not supported under the active sandbox backend"));
}

#[test]
fn failures_to_run_a_checker_say_what_happened() {
    let tool = CheckTool::new("/work").with_timeout(2_500);
    let late = tool.timed_out(ProjectKind::Go);
    assert!(!late.success);
    assert_eq!(late.output, "go vet timed out after 2s");
    let spawn = CheckTool::spawn_failure(ProjectKind::TypeScript, "/bin/tsc", "no such file");
    assert_eq!(spawn.output, "failed to run tsc --noEmit (/bin/tsc): no such file");
    let wait = CheckTool::wait_failure(ProjectKind::Rust, "broken pipe");
    assert_eq!(wait.output, "failed to run cargo check: broken pipe");
}

#[test]
fn an_unreadable_run_falls_back_on_the_end_of_its_output() {
    let tool = CheckTool::new("/work");
    let result = tool.finish(ProjectKind::Rust, b"out\n", b"error: broken manifest\n", Some(101));
    assert!(result.success);
    assert_eq!(
        result.output,
        "cargo check: exit code 101, no parseable diagnostics. Output tail:\nerror: broken manifest"
    );
    let quiet = tool.finish(ProjectKind::Go, b"", b"  \n", None);
    assert_eq!(quiet.output, "go vet: exit code unknown, no diagnostics reported");
    let clean = tool.finish(ProjectKind::Go, b"", b"", Some(0));
    assert_eq!(clean.output, "go vet: clean (no errors or warnings)");
    assert!(clean.structured_metadata.is_some());
}

#[test]
fn a_long_diagnostic_becomes_one_bounded_line() {
    let long = format!("./main.go:1:2: {}", "é".repeat(400));
    let parsed = parse_go_vet_output(&long);
    assert_eq!(parsed.lines.len(), 1);
    assert!(parsed.lines[0].ends_with('…'));
    assert!(parsed.lines[0].len() <= 500 + '…'.len_utf8());

    let fixture = r#"{"reason":"compiler-message","message":{"level":"warning","message":"a\nb","code":null,"spans":[]}}"#;
    assert_eq!(parse_cargo_json(fixture).lines, vec!["warning: a b".to_string()]);
}

#[test]
fn the_first_span_locates_a_message_without_a_primary_one() {
    let fixture = r#"{"reason":"compiler-message","message":{"level":"error","message":"m","spans":[{"line_start":4},{"file_name":"b.rs","line_start":9,"is_primary":false}]}}"#;
    assert_eq!(parse_cargo_json(fixture).lines, vec!["<unknown>:4: error: m".to_string()]);
}

#[test]
fn only_numbers_locate_a_typescript_diagnostic() {
    for bad in ["(1,2): error TS1: m", "a.ts(1,x): error TS1: m", "a.ts(1,2): note: m", "a.ts: error"] {
        assert!(parse_tsc_output(bad).lines.is_empty(), "{bad}");
    }
    assert_eq!(
        parse_tsc_output("a.ts( 7 , 2 ): warning W").lines,
        vec!["a.ts:7: warning W".to_string()]
    );
}
