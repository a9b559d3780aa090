//! Snapshots from end to end, over a git that lives in memory.

use std::collections::{BTreeMap, BTreeSet};

use octos_agent::snapshot::{SnapshotId, SnapshotInfo};
use octos_agent::snapshot_manager::{RestoreStage, SnapshotAction, SnapshotManager};

type Tree = BTreeMap<String, String>;

const SNAPSHOTS: &str = "refs/octos/snapshots";

struct Git {
    manager: SnapshotManager,
    files: Tree,
    ignored: Vec<&'static str>,
    dirs: BTreeSet<String>,
    staged: Tree,
    trees: Vec<Tree>,
    commits: BTreeMap<String, (usize, String)>,
    made: u64,
    refs: BTreeMap<String, String>,
    clock: u128,
}

fn top(path: &str) -> &str {
    path.split('/').next().unwrap()
}

impl Git {
    fn new(keep_last: usize) -> Git {
        Git {
            manager: SnapshotManager::with_git_binary(
                "git".to_string(),
                "/data/snapshots".to_string(),
                "/work".to_string(),
                keep_last,
                false,
            ),
            files: Tree::new(),
            ignored: vec![".git/"],
            dirs: BTreeSet::new(),
            staged: Tree::new(),
            trees: Vec::new(),
            commits: BTreeMap::new(),
            made: 0,
            refs: BTreeMap::new(),
            clock: 1_700_000_000_000,
        }
    }

    fn write(&mut self, path: &str, content: &str) {
        self.files.insert(path.to_string(), content.to_string());
        let mut dir = path;
        while let Some((above, _)) = dir.rsplit_once('/') {
            self.dirs.insert(above.to_string());
            dir = above;
        }
    }

    fn read(&self, path: &str) -> &str {
        &self.files[path]
    }

    fn tree_of(&self, commit: &str) -> Result<&Tree, String> {
        match self.commits.get(commit) {
            Some((tree, _)) => Ok(&self.trees[*tree]),
            None => Err(format!("fatal: bad object {commit}")),
        }
    }

    fn under(&self, prefix: &str) -> Vec<(String, String)> {
        let start = format!("{prefix}/");
        self.refs
            .iter()
            .filter(|(name, _)| name.starts_with(&start))
            .map(|(name, commit)| (name.clone(), commit.clone()))
            .collect()
    }

    fn for_each_ref(&self, args: &[String]) -> String {
        let mut refs = self.under(args.last().unwrap());
        if args.iter().any(|a| a == "--sort=-refname") {
            refs.reverse();
        }
        if args.iter().any(|a| a == "--count=1") {
            refs.truncate(1);
        }
        let format = args.iter().find(|a| a.starts_with("--format=")).unwrap();
        refs.iter()
            .map(|(name, commit)| match format.as_str() {
                "--format=%(objectname)" => format!("{commit}\n"),
                "--format=%(refname)%00%(objectname)" => format!("{name}\0{commit}\n"),
                _ => format!("{commit}\01700000000\0{}\n", self.commits[commit].1),
            })
            .collect()
    }

    fn git(&mut self, args: &[String]) -> Result<String, String> {
        let words: Vec<&str> = args.iter().map(String::as_str).collect();
        match words.as_slice() {
            ["add", "-A"] => {
                self.staged = self.files.clone();
                self.staged.retain(|path, _| !self.ignored.iter().any(|i| path.starts_with(i)));
                Ok(String::new())
            }
            ["write-tree"] => {
                let staged = self.staged.clone();
                let at = match self.trees.iter().position(|tree| *tree == staged) {
                    Some(at) => at,
                    None => {
                        self.trees.push(staged);
                        self.trees.len() - 1
                    }
                };
                Ok(format!("{at:040x}\n"))
            }
            ["ls-tree", "-r", tree] => {
                let at = usize::from_str_radix(tree, 16).unwrap();
                let line = |path: &String| format!("100644 blob 0000\t{path}\n");
                Ok(self.trees[at].keys().map(line).collect())
            }
            ["ls-tree", "--name-only", commit] => {
                let names: BTreeSet<&str> = self.tree_of(commit)?.keys().map(|p| top(p)).collect();
                Ok(names.iter().map(|name| format!("{name}\n")).collect())
            }
            ["for-each-ref", ..] => Ok(self.for_each_ref(args)),
            ["rev-parse", "--verify", "--quiet", commit] => {
                let commit = commit.strip_suffix("^{commit}").unwrap();
                self.tree_of(commit)?;
                Ok(format!("{commit}\n"))
            }
            ["rev-parse", tree] => {
                let commit = tree.strip_suffix("^{tree}").unwrap();
                self.tree_of(commit)?;
                Ok(format!("{:040x}\n", self.commits[commit].0))
            }
            ["commit-tree", "-m", label, tree] => {
                self.made += 1;
                let id = format!("c{:039x}", self.made);
                let at = usize::from_str_radix(tree, 16).unwrap();
                self.commits.insert(id.clone(), (at, label.to_string()));
                Ok(format!("{id}\n"))
            }
            ["update-ref", "-d", name] => {
                self.refs.remove(*name);
                Ok(String::new())
            }
            ["update-ref", name, commit] => {
                self.refs.insert(name.to_string(), commit.to_string());
                Ok(String::new())
            }
            ["prune", _] => {
                let held: BTreeSet<&String> = self.refs.values().collect();
                self.commits.retain(|id, _| held.contains(id));
                Ok(String::new())
            }
            ["diff", "--cached", "--name-only", "--diff-filter=A", "-z", commit] => {
                let tree = self.tree_of(commit)?;
                Ok(self
                    .staged
                    .keys()
                    .filter(|path| !tree.contains_key(*path))
                    .map(|path| format!("{path}\0"))
                    .collect())
            }
            ["checkout", "-f", commit, "--", "."] => {
                for (path, content) in self.tree_of(commit)?.clone() {
                    self.write(&path, &content);
                }
                Ok(String::new())
            }
            other => panic!("unexpected command {other:?}"),
        }
    }

    fn perform(&mut self, action: SnapshotAction) -> Result<String, String> {
        match action {
            SnapshotAction::Git(args) => self.git(&args),
            SnapshotAction::RemoveFiles(files) => {
                for file in &files {
                    self.files.remove(file);
                }
                Ok(String::new())
            }
            SnapshotAction::RemoveDirs(dirs) => {
                for dir in &dirs {
                    let below = format!("{dir}/");
                    let used = self.files.keys().chain(&self.dirs).any(|p| p.starts_with(&below));
                    if !used {
                        self.dirs.remove(dir);
                    }
                }
                Ok(String::new())
            }
            _ => Ok(String::new()),
        }
    }

    fn take(&mut self, label: &str) -> Result<String, String> {
        let mut take = self.manager.take_snapshot(label);
        loop {
            self.manager.follow(&take);
            let reply = match take.action() {
                SnapshotAction::Finished => break,
                action => self.perform(action),
            };
            self.clock += 1;
            take = take.feed(reply, self.clock);
        }
        take.outcome().expect("an outcome").map(|id| id.as_str().to_string())
    }

    fn restore(&mut self, id: &str) -> Result<(), String> {
        let mut restore = self.manager.restore(&SnapshotId::new(id), true)?;
        loop {
            self.manager.follow_restore(&restore);
            let reply = match restore.action() {
                SnapshotAction::Finished => break,
                action => self.perform(action),
            };
            self.clock += 1;
            restore = restore.feed(reply, self.clock);
        }
        match restore.stage {
            RestoreStage::Done(result) => result,
            other => panic!("not finished: {other:?}"),
        }
    }

    fn list(&mut self) -> Vec<SnapshotInfo> {
        let listing = self.git(&self.manager.list_command()).unwrap();
        self.manager.list_snapshots(Some(&listing))
    }

    fn lists(&mut self, id: &str) -> bool {
        self.list().iter().any(|info| info.id.as_str() == id)
    }
}

#[test]
fn should_round_trip_restore_when_files_change() {
    let mut git = Git::new(20);
    git.write("a.txt", "original a");
    git.write("sub/b.txt", "original b");
    let snap = git.take("before edits").unwrap();

    git.write("a.txt", "MUTATED a");
    git.files.remove("sub/b.txt");
    git.write("created.txt", "new file");

    git.restore(&snap).unwrap();

    assert_eq!(git.read("a.txt"), "original a", "modification undone");
    assert_eq!(git.read("sub/b.txt"), "original b", "deletion undone");
    assert!(
        !git.files.contains_key("created.txt"),
        "file created after the snapshot must be removed on restore"
    );
    let list = git.list();
    assert!(
        list.iter().any(|s| s.label == "pre-restore"),
        "restore must record a pre-restore snapshot; got {list:?}"
    );
}

#[test]
fn should_respect_gitignore_when_snapshotting() {
    let mut git = Git::new(20);
    git.ignored.extend(["ignored.log", "target/"]);
    git.write(".gitignore", "ignored.log\ntarget/\n");
    git.write("kept.txt", "kept v1");
    git.write("ignored.log", "artifact v1");
    git.write("target/build.o", "obj v1");

    let snap = git.take("with ignores").unwrap();

    git.write("kept.txt", "kept v2");
    git.write("ignored.log", "artifact v2");
    git.write("target/build.o", "obj v2");
    git.write("target/later.o", "obj v1");

    git.restore(&snap).unwrap();

    assert_eq!(git.read("kept.txt"), "kept v1", "tracked file restored");
    assert_eq!(
        git.read("ignored.log"),
        "artifact v2",
        "gitignored file must not be snapshotted or restored"
    );
    assert_eq!(
        git.read("target/build.o"),
        "obj v2",
        "gitignored dir must not be snapshotted or restored"
    );
    assert_eq!(git.read("target/later.o"), "obj v1");
}

#[test]
fn the_users_own_repository_is_left_alone() {
    let mut git = Git::new(20);
    git.write("code.rs", "fn main() {}\n");
    git.write(".git/HEAD", "ref: refs/heads/main\n");
    let snap = git.take("user repo untouched").unwrap();
    git.write("code.rs", "fn main() { panic!() }\n");
    git.write(".git/index", "staged");
    git.restore(&snap).unwrap();
    assert_eq!(git.read("code.rs"), "fn main() {}\n");
    assert_eq!(git.read(".git/HEAD"), "ref: refs/heads/main\n");
    assert_eq!(git.read(".git/index"), "staged");
    assert!(!git.tree_of(&snap).unwrap().keys().any(|path| path.starts_with(".git/")));
}

#[test]
fn should_remove_directories_created_after_snapshot_on_restore() {
    let mut git = Git::new(20);
    git.write("base.txt", "base");
    let snap = git.take("before newdir").unwrap();

    git.write("newdir/deep/leaf.txt", "created later");
    git.restore(&snap).unwrap();
    assert!(
        git.dirs.is_empty(),
        "directories created after the snapshot must be removed once emptied"
    );
    assert_eq!(git.read("base.txt"), "base");
}

#[test]
fn should_prune_to_keep_last_when_over_limit() {
    let mut git = Git::new(5);
    let mut ids = Vec::new();
    for i in 0..8 {
        git.write("f.txt", &format!("state {i}"));
        ids.push(git.take(&format!("snap {i}")).unwrap());
    }

    let list = git.list();
    assert_eq!(list.len(), 5, "prune must retain exactly keep_last");
    assert_eq!(list[0].label, "snap 7", "newest first");
    assert_eq!(list[4].label, "snap 3");
    for (i, info) in list.iter().enumerate() {
        assert_eq!(info.id.as_str(), ids[7 - i]);
        assert_eq!(info.label, format!("snap {}", 7 - i));
    }
    for dropped in &ids[..3] {
        assert!(!git.lists(dropped), "pruned snapshot {dropped} must not be listed");
    }
    assert!(!git.commits.contains_key(&ids[0]), "pruned snapshot objects must be deleted");
    assert!(git.commits.contains_key(&ids[7]));
}

#[test]
fn should_restore_oldest_snapshot_when_at_keep_last_capacity() {
    let mut git = Git::new(3);
    let mut ids = Vec::new();
    for i in 0..3 {
        git.write("f.txt", &format!("state {i}"));
        ids.push(git.take(&format!("snap {i}")).unwrap());
    }
    let oldest = ids[0].clone();
    assert!(git.lists(&oldest), "precondition: the oldest snapshot is still listed");

    git.write("f.txt", "uncommitted mutation");

    git.restore(&oldest).expect("restoring the oldest retained snapshot must succeed");
    assert_eq!(
        git.read("f.txt"),
        "state 0",
        "workspace must be back at the oldest snapshot's state"
    );
    assert!(git.lists(&oldest), "restore target must still be listed after restore");
    git.write("f.txt", "another mutation");
    git.restore(&oldest).expect("the restore target must remain restorable");
    assert_eq!(git.read("f.txt"), "state 0");
    assert!(git.under("refs/octos/restore-pin").is_empty());
}

#[test]
fn should_restore_only_snapshot_when_keep_last_is_one() {
    let mut git = Git::new(1);
    git.write("solo.txt", "wanted state");
    let snap = git.take("only snapshot").unwrap();

    git.write("solo.txt", "TAMPERED");
    git.restore(&snap)
        .expect("restore with keep_last=1 must not destroy its own target");
    assert_eq!(git.read("solo.txt"), "wanted state");
    assert!(git.lists(&snap), "restore target must survive prune while being restored");
}

#[test]
fn should_take_snapshot_when_newest_ref_is_dangling() {
    let mut git = Git::new(20);
    git.write("w.txt", "good state");
    git.take("good").unwrap();

    git.refs.insert(
        format!("{SNAPSHOTS}/9999999999999999-000000-deadbeef"),
        "1111111111111111111111111111111111111111".to_string(),
    );

    git.write("w.txt", "after wedge");
    let snap = git
        .take("must not wedge")
        .expect("a dangling newest ref must skip dedup, not fail the snapshot");

    git.write("w.txt", "TAMPERED");
    git.restore(&snap).expect("restore must also survive a dangling newest ref");
    assert_eq!(git.read("w.txt"), "after wedge");
}

#[test]
fn should_dedup_snapshot_when_tree_unchanged() {
    let mut git = Git::new(20);
    git.write("same.txt", "unchanging");
    let first = git.take("first").unwrap();
    let second = git.take("second (no changes)").unwrap();

    assert_eq!(first, second, "identical trees must reuse the snapshot");
    let list = git.list();
    assert_eq!(list.len(), 1);
    assert_eq!(list[0].label, "first");
}

#[test]
fn a_restore_is_taken_back_by_one_to_the_newest_snapshot() {
    let mut git = Git::new(2);
    git.write("a.txt", "one");
    let snap = git.take("one").unwrap();
    git.write("a.txt", "two");
    git.write("b/c.txt", "more");
    let found = git.files.clone();

    git.restore(&snap).unwrap();
    assert_eq!(git.read("a.txt"), "one");
    assert!(!git.files.contains_key("b/c.txt"));

    let newest = git.list()[0].id.as_str().to_string();
    git.restore(&newest).unwrap();
    assert_eq!(git.files, found);
}

#[test]
fn a_workspace_without_files_is_restored_too() {
    let mut git = Git::new(3);
    let empty = git.take("empty").unwrap();
    git.write("a.txt", "later");
    git.restore(&empty).unwrap();
    assert!(git.files.is_empty());
}
