//! Snapshots: ids, labels, names, what is pruned, and how taking and restoring go.

use octos_agent::codec::parse_json;
use octos_agent::restore_paths::{dirs_above, removable, self_exclude, SelfExclude};
use octos_agent::snapshot::{
    is_mutating_tool, parse_refs, parse_snapshots, ref_name, sanitize_label, stale_refs,
    workspace_hash, SnapshotConfig, SnapshotId, DEFAULT_PRUNE_EXPIRE, DEFAULT_SNAPSHOT_KEEP_LAST,
};
use octos_agent::snapshot_manager::{
    git_failure, nested_repositories, parse_paths, scrubbed_git_env, Restore, SnapshotAction,
    SnapshotManager, Take,
};

fn manager(keep_last: usize) -> SnapshotManager {
    SnapshotManager::with_git_binary(
        "/usr/bin/git".to_string(),
        "/data/snapshots".to_string(),
        "/work".to_string(),
        keep_last,
        false,
    )
}

fn git(action: SnapshotAction) -> Vec<String> {
    match action {
        SnapshotAction::Git(args) => args,
        other => panic!("expected a git command, got {other:?}"),
    }
}

fn ok(s: &str) -> Result<String, String> {
    Ok(s.to_string())
}

fn err(s: &str) -> Result<String, String> {
    Err(s.to_string())
}

/// Feeds replies to the taking of a snapshot, checking the command that each answers.
fn drive(mut take: Take, steps: &[(&str, Result<String, String>)]) -> Take {
    for (command, reply) in steps {
        let action = take.action();
        let shown = match &action {
            SnapshotAction::Prepare => "prepare".to_string(),
            SnapshotAction::Git(args) => args.join(" "),
            other => format!("{other:?}"),
        };
        assert!(shown.starts_with(command), "expected {command}, got {shown}");
        take = take.feed(reply.clone(), 1_700_000_000_123);
    }
    take
}

fn outcome(take: Take) -> Result<String, String> {
    match take.outcome() {
        Some(Ok(id)) => Ok(id.as_str().to_string()),
        Some(Err(e)) => Err(e),
        None => panic!("not finished"),
    }
}

#[test]
fn should_classify_only_builtin_mutating_tools() {
    for tool in [
        "write_file", "edit_file", "apply_patch", "diff_edit", "shell", "bash", "spawn",
        "spawn_agent", "delegate", "delegate_task",
    ] {
        assert!(is_mutating_tool(tool), "{tool} must be mutating");
    }
    for tool in ["read_file", "glob", "grep", "list_dir", "web_search"] {
        assert!(!is_mutating_tool(tool), "{tool} must not be mutating");
    }
}

#[test]
fn should_default_snapshot_config_to_disabled() {
    let cfg = SnapshotConfig::default();
    assert!(!cfg.enabled, "snapshots must be opt-in (default OFF)");
    assert_eq!(cfg.keep_last, DEFAULT_SNAPSHOT_KEEP_LAST);
    let parsed = SnapshotConfig::from_json(&parse_json("{}").unwrap()).unwrap();
    assert_eq!(parsed, cfg);
    let parsed =
        SnapshotConfig::from_json(&parse_json(r#"{"enabled": true, "keep_last": 5}"#).unwrap())
            .unwrap();
    assert!(parsed.enabled);
    assert_eq!(parsed.keep_last, 5);
    let only = SnapshotConfig::from_json(&parse_json(r#"{"keep_last": 7}"#).unwrap()).unwrap();
    assert_eq!(only, SnapshotConfig { enabled: false, keep_last: 7 });
    for bad in [r#"{"enabled": 1}"#, r#"{"keep_last": -1}"#, "[true, 5, 1]", "[5]", "7"] {
        assert!(SnapshotConfig::from_json(&parse_json(bad).unwrap()).is_none(), "{bad}");
    }
    let listed = SnapshotConfig::from_json(&parse_json("[true, 5]").unwrap()).unwrap();
    assert_eq!(listed, SnapshotConfig { enabled: true, keep_last: 5 });
    let none = SnapshotConfig::from_json(&parse_json("[]").unwrap()).unwrap();
    assert_eq!(none, cfg);
}

#[test]
fn should_default_prune_expire_to_grace_period() {
    assert_eq!(manager(20).prune_expire(), DEFAULT_PRUNE_EXPIRE);
    assert_eq!(DEFAULT_PRUNE_EXPIRE, "1.hour.ago");
}

#[test]
fn should_be_unavailable_when_git_binary_missing() {
    let none = SnapshotManager::new(None, "/data/snapshots".to_string(), "/work".to_string(), 20, false);
    assert!(none.is_none());
    let some = SnapshotManager::new(
        Some("/usr/bin/git".to_string()),
        "/data/snapshots".to_string(),
        "/work".to_string(),
        20,
        false,
    );
    assert_eq!(some.expect("available").git(), "/usr/bin/git");
}

#[test]
fn should_reject_malformed_id_when_restoring() {
    let mgr = manager(20);
    for bad in ["--force", "HEAD", "refs/octos/snapshots", "", "zzzz"] {
        assert!(mgr.restore(&SnapshotId::new(bad), true).is_err(), "{bad:?} must be rejected");
        assert!(mgr.snapshot_paths(&SnapshotId::new(bad)).is_err());
    }
    let e = mgr.restore(&SnapshotId::new("HEAD"), true).err().unwrap();
    assert_eq!(e, "invalid snapshot id \"HEAD\": expected a hex commit hash");
    assert!(!SnapshotId::new("abc").is_hash());
    assert!(SnapshotId::new("abcd").is_hash());
    assert!(SnapshotId::new(&"A".repeat(64)).is_hash());
    assert!(!SnapshotId::new(&"a".repeat(65)).is_hash());
}

#[test]
fn should_list_empty_when_no_snapshot_repo_exists() {
    let mgr = manager(20);
    assert!(mgr.list_snapshots(None).is_empty());
    let e = mgr.restore(&SnapshotId::new("abcd1234"), false).err().unwrap();
    assert_eq!(e, "no snapshots have been taken for this workspace");
}

#[test]
fn a_workspace_has_a_stable_hash() {
    // The first eight bytes of the SHA-256 digests of "" and "abc".
    assert_eq!(workspace_hash(""), "e3b0c44298fc1c14");
    assert_eq!(workspace_hash("abc"), "ba7816bf8f01cfea");
    let mgr = SnapshotManager::with_git_binary(
        "git".to_string(),
        "/data/snapshots".to_string(),
        "abc".to_string(),
        0,
        false,
    );
    assert_eq!(mgr.git_dir(), "/data/snapshots/ba7816bf8f01cfea");
    assert_eq!(mgr.workspace(), "abc");
    assert_eq!(mgr.snapshots_root(), "/data/snapshots");
}

#[test]
fn labels_are_printable_and_bounded() {
    assert_eq!(sanitize_label("before\tedits\n"), "before edits");
    assert_eq!(sanitize_label("\u{7f}\u{85}"), "snapshot");
    assert_eq!(sanitize_label(""), "snapshot");
    let long = sanitize_label(&"é".repeat(300));
    assert_eq!(long, format!("{}…", "é".repeat(100)));
}

#[test]
fn names_sort_by_time() {
    let a = ref_name(999, 5, "aaaaaaaaaaaa");
    assert_eq!(a, "refs/octos/snapshots/0000000000000999-000005-aaaaaaaa");
    let b = ref_name(1000, 0, "00000000");
    let c = ref_name(1000, 10, "0");
    let d = ref_name(1000, 9, "ffffffff");
    assert!(a < b && b < d && d < c);
}

#[test]
fn listings_are_read_line_by_line() {
    let listing = "aaaa\0 170 \0first\nbad line\n\0171\0no id\nbbbb\0x\0second\0part\ncccc\0-5\0\n";
    let all = parse_snapshots(listing);
    let seen: Vec<(&str, &str, i64)> =
        all.iter().map(|s| (s.id.as_str(), s.label.as_str(), s.timestamp_unix)).collect();
    assert_eq!(seen, vec![("aaaa", "first", 170), ("bbbb", "second\0part", 0), ("cccc", "", -5)]);
    assert_eq!(
        parse_refs("r1\0c1\nr2\nr3\0c3\n"),
        vec![("r1".to_string(), "c1".to_string()), ("r3".to_string(), "c3".to_string())]
    );
    assert_eq!(parse_paths("a\0b/c\0"), vec!["a".to_string(), "b/c".to_string()]);
    assert_eq!(parse_paths(""), Vec::<String>::new());
    assert_eq!(
        nested_repositories("100644 blob x\ttop.txt\n160000 commit y\tvendor/dep\n"),
        vec!["vendor/dep".to_string()]
    );
}

#[test]
fn refs_over_the_limit_are_stale() {
    let refs: Vec<(String, String)> =
        (0..8).rev().map(|i| (format!("r{i}"), format!("c{i}"))).collect();
    assert_eq!(stale_refs(&refs, 5, &Vec::new()), vec!["r2", "r1", "r0"]);
    assert!(stale_refs(&refs, 8, &Vec::new()).is_empty());
}

#[test]
fn a_pinned_ref_is_never_stale() {
    let refs: Vec<(String, String)> =
        (0..4).rev().map(|i| (format!("r{i}"), format!("c{i}"))).collect();
    assert!(stale_refs(&refs, 3, &vec!["c0".to_string()]).is_empty());
}

#[test]
fn at_least_one_snapshot_is_kept() {
    let mgr = manager(0);
    let take = mgr.take_snapshot("only snapshot");
    assert_eq!(take.terms.keep_last, 1);
    let refs = vec![("r1".to_string(), "c1".to_string()), ("r0".to_string(), "c0".to_string())];
    assert!(stale_refs(&refs, 1, &vec!["c0".to_string()]).is_empty());
    assert_eq!(stale_refs(&refs, 1, &Vec::new()), vec!["r0"]);
}

fn scanned(mgr: &mut SnapshotManager) {
    let take = drive(
        mgr.take_snapshot("scan"),
        &[("prepare", ok("")), ("add -A", ok("")), ("write-tree", ok("t"))],
    );
    mgr.follow(&take);
}

#[test]
fn a_snapshot_is_taken_and_old_ones_are_pruned() {
    let mut mgr = manager(1);
    let take = mgr.take_snapshot("before\nedits");
    let take = drive(
        take,
        &[
            ("prepare", ok("")),
            ("add -A", ok("")),
            ("write-tree", ok("tree1\n")),
        ],
    );
    mgr.follow(&take);
    let take = drive(
        take,
        &[
            ("ls-tree -r tree1", ok("160000 commit x\tvendor/dep\n")),
            ("for-each-ref --count=1 --sort=-refname", ok("\n")),
            ("commit-tree -m before edits tree1", ok("0123456789abcdef\n")),
        ],
    );
    mgr.follow(&take);
    let take = drive(
        take,
        &[
            (
                "update-ref refs/octos/snapshots/0001700000000123-000000-01234567 0123456789abcdef",
                ok(""),
            ),
            ("for-each-ref --sort=-refname", ok("rn\0cn\nr2\0c2\nr1\0c1\n")),
            ("for-each-ref --format=%(objectname) refs/octos/restore-pin", ok("c2\n")),
            ("update-ref -d r1", ok("")),
            ("prune --expire=1.hour.ago", err("busy")),
        ],
    );
    assert_eq!(take.nested, vec!["vendor/dep".to_string()]);
    assert_eq!(outcome(take), Ok("0123456789abcdef".to_string()));
    let second = drive(
        mgr.take_snapshot("second"),
        &[("prepare", ok("")), ("add -A", ok("")), ("write-tree", ok("t"))],
    );
    assert!(git(second.action()).contains(&"--count=1".to_string()));
    assert_eq!(second.terms.seq, 1);
}

#[test]
fn a_tree_that_is_recorded_gets_no_commit() {
    let mut mgr = manager(20);
    scanned(&mut mgr);
    let take = drive(
        mgr.take_snapshot("second (no changes)"),
        &[
            ("prepare", ok("")),
            ("add -A", ok("")),
            ("write-tree", ok("tree1\n")),
            ("for-each-ref", ok("first\n")),
            ("rev-parse first^{tree}", ok("tree1\n")),
        ],
    );
    assert_eq!(outcome(take), Ok("first".to_string()));
}

#[test]
fn a_newest_ref_that_leads_nowhere_is_passed_over() {
    let mut mgr = manager(20);
    scanned(&mut mgr);
    let take = drive(
        mgr.take_snapshot("must not wedge"),
        &[
            ("prepare", ok("")),
            ("add -A", ok("")),
            ("write-tree", ok("tree2\n")),
            ("for-each-ref", ok("1111111111111111111111111111111111111111\n")),
            ("rev-parse 1111", err("bad object")),
            ("commit-tree -m must not wedge tree2", ok("good\n")),
            ("update-ref", ok("")),
            ("for-each-ref", err("locked")),
        ],
    );
    assert_eq!(outcome(take), Ok("good".to_string()));
}

#[test]
fn a_snapshot_that_cannot_be_staged_fails() {
    let mgr = manager(20);
    let take =
        drive(mgr.take_snapshot("x"), &[("prepare", ok("")), ("add -A", err("index.lock exists"))]);
    assert_eq!(
        outcome(take),
        Err("failed to stage workspace state for snapshot: index.lock exists".to_string())
    );
}

fn drive_restore(mut restore: Restore, steps: &[(&str, Result<String, String>)]) -> Restore {
    for (command, reply) in steps {
        let shown = match restore.action() {
            SnapshotAction::Prepare => "prepare".to_string(),
            SnapshotAction::Git(args) => args.join(" "),
            SnapshotAction::RemoveFiles(files) => format!("files {}", files.join(" ")),
            SnapshotAction::RemoveDirs(dirs) => format!("dirs {}", dirs.join(" ")),
            SnapshotAction::Finished => "finished".to_string(),
        };
        assert!(shown.starts_with(command), "expected {command}, got {shown}");
        restore = restore.feed(reply.clone(), 1);
    }
    restore
}

#[test]
fn a_restore_records_the_present_state_before_it_touches_files() {
    let mut mgr = manager(20);
    scanned(&mut mgr);
    let restore = mgr.restore(&SnapshotId::new("abcd"), true).unwrap();
    mgr.follow_restore(&restore);
    let restore = drive_restore(
        restore,
        &[
            ("rev-parse --verify --quiet abcd^{commit}", ok("abcdef\n")),
            ("update-ref refs/octos/restore-pin/abcdef abcdef", ok("")),
            ("prepare", ok("")),
            ("add -A", ok("")),
            ("write-tree", ok("t\n")),
            ("for-each-ref", ok("")),
            ("commit-tree -m pre-restore t", ok("pre\n")),
            ("update-ref refs/octos/snapshots/", ok("")),
            ("for-each-ref", ok("")),
            (
                "diff --cached --name-only --diff-filter=A -z abcdef",
                ok("newdir/deep/leaf.txt\0../evil\0/abs\0top.txt\0"),
            ),
            ("ls-tree --name-only abcdef", ok("base.txt\n")),
            ("checkout -f abcdef -- .", ok("")),
            ("files newdir/deep/leaf.txt top.txt", ok("")),
            ("dirs newdir/deep newdir", ok("")),
            ("update-ref -d refs/octos/restore-pin/abcdef", err("gone")),
            ("finished", ok("")),
        ],
    );
    assert!(format!("{:?}", restore.stage).starts_with("Done(Ok"));
}

#[test]
fn a_restore_that_fails_lets_its_target_go() {
    let mgr = manager(20);
    let restore = mgr.restore(&SnapshotId::new("abcd"), true).unwrap();
    let restore = drive_restore(
        restore,
        &[
            ("rev-parse", ok("abcdef\n")),
            ("update-ref refs/octos/restore-pin/abcdef", ok("")),
            ("prepare", err("disk full")),
            ("update-ref -d refs/octos/restore-pin/abcdef", ok("")),
            ("finished", ok("")),
        ],
    );
    let shown = format!("{:?}", restore.stage);
    assert!(shown.contains("failed to record pre-restore snapshot: disk full"), "{shown}");

    let restore = mgr.restore(&SnapshotId::new("abcd"), true).unwrap();
    let restore = drive_restore(restore, &[("rev-parse", err("")), ("finished", ok(""))]);
    assert!(format!("{:?}", restore.stage).contains("snapshot abcd not found"));
}

#[test]
fn paths_that_may_leave_the_workspace_are_not_removed() {
    assert_eq!(
        removable("a\0\0./b\0c/../d\0/e\0f/./g\0h//i", false),
        vec!["a".to_string(), "f/./g".to_string(), "h//i".to_string()]
    );
    let listing = "a\\b\0c:\\d\0\\e\0.\\f\0g\\..\\h\0C:i";
    assert_eq!(removable(listing, true), vec!["a\\b".to_string()]);
    assert_eq!(removable(listing, false).len(), 6);
}

#[test]
fn directories_are_swept_from_below() {
    let paths = vec!["newdir/deep/leaf.txt".to_string(), "newdir/x".to_string(), "b/c/d".to_string()];
    assert_eq!(dirs_above(&paths, false), vec!["newdir/deep", "newdir", "b/c", "b"]);
    assert!(dirs_above(&vec!["top.txt".to_string()], false).is_empty());
}

#[test]
fn should_exclude_snapshot_storage_when_data_dir_inside_workspace() {
    match self_exclude("/ws/.octos-data/snapshots", "/ws", false) {
        SelfExclude::Pattern(p) => assert_eq!(p, "/.octos-data/snapshots/\n"),
        other => panic!("expected a pattern, got {other:?}"),
    }
    assert!(matches!(self_exclude("/data/snapshots", "/ws", false), SelfExclude::Outside));
    assert!(matches!(self_exclude("/ws/", "/ws", false), SelfExclude::Same));
    assert!(matches!(self_exclude("/wsx/a", "/ws", false), SelfExclude::Outside));
    match self_exclude("c:\\ws\\data\\snapshots", "C:/ws", true) {
        SelfExclude::Pattern(p) => assert_eq!(p, "/data/snapshots/\n"),
        other => panic!("expected a pattern, got {other:?}"),
    }
    assert!(matches!(self_exclude("D:/ws/data", "C:/ws", true), SelfExclude::Outside));
    match self_exclude("/data", "", false) {
        SelfExclude::Pattern(p) => assert_eq!(p, "///data/\n"),
        other => panic!("expected a pattern, got {other:?}"),
    }
    assert!(matches!(self_exclude("/ws/./", "/ws", false), SelfExclude::Same));
}

#[test]
fn every_git_command_names_its_own_repository() {
    let mgr = manager(20);
    let args = mgr.git_args(&vec!["add".to_string(), "-A".to_string()]);
    assert_eq!(args[0], "--git-dir");
    assert_eq!(args[1], mgr.git_dir());
    assert_eq!(args[2], "--work-tree");
    assert_eq!(args[3], "/work");
    assert!(args.contains(&"core.excludesFile=/dev/null".to_string()));
    assert!(args.contains(&format!("core.hooksPath={}/_no_hooks", mgr.git_dir())));
    assert_eq!(&args[args.len() - 2..], &["add".to_string(), "-A".to_string()]);
    let other = SnapshotManager::with_git_binary(
        "git".to_string(),
        "C:\\data".to_string(),
        "C:\\work".to_string(),
        20,
        true,
    );
    assert!(other.git_dir().starts_with("C:\\data\\"));
    let args = other.git_args(&Vec::new());
    assert!(args.contains(&"core.excludesFile=NUL".to_string()));
    assert!(args.contains(&format!("core.hooksPath={}\\_no_hooks", other.git_dir())));
    assert!(scrubbed_git_env().contains(&"GIT_INDEX_FILE".to_string()));
    assert_eq!(
        git_failure("add", "exit status: 128", b" fatal: no \n"),
        "git add failed (exit status: 128): fatal: no"
    );
    assert_eq!(
        mgr.snapshot_paths(&SnapshotId::new("abcd")).unwrap().join(" "),
        "ls-tree -r --name-only -z abcd"
    );
    assert_eq!(mgr.list_command().len(), 4);
    assert_eq!(mgr.list_snapshots(Some("aaaa\01\0x\n")).len(), 1);
}
