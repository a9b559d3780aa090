//! Taking and restoring snapshots: which git command comes next, and what its reply means.

use vstd::prelude::*;

use crate::bytes;
use crate::bytes::from_utf8_lossy;
use crate::paths;
use crate::paths::join_paths;
use crate::restore_paths;
use crate::restore_paths::{dirs_above, removable};
use crate::snapshot;
use crate::snapshot::{
    parse_pins, parse_refs, parse_snapshots, ref_name, sanitize_label, stale_refs, workspace_hash,
    SnapshotId, SnapshotInfo, DEFAULT_PRUNE_EXPIRE, RESTORE_PIN_REF_PREFIX, SNAPSHOT_REF_PREFIX,
};
use crate::text;
use crate::text::{
    cat, cat3, cat5, debug_string, lines, own, push_range, same, split, starts_with, trim,
};

verus! {

/// What is to be done next.
#[derive(Debug)]
pub enum SnapshotAction {
    /// Set up the repository of the snapshots.
    Prepare,
    /// Run git with these arguments.
    Git(Vec<String>),
    /// Remove these files of the workspace, where they are there.
    RemoveFiles(Vec<String>),
    /// Remove these directories of the workspace, in this order, where they are empty.
    RemoveDirs(Vec<String>),
    /// Nothing.
    Finished,
}

/// What a [`SnapshotAction`] stands for.
#[verifier::ext_equal]
pub enum ActionView {
    Prepare,
    Git(Seq<Seq<char>>),
    RemoveFiles(Seq<Seq<char>>),
    RemoveDirs(Seq<Seq<char>>),
    Finished,
}

impl View for SnapshotAction {
    type V = ActionView;

    open spec fn view(&self) -> ActionView {
        match self {
            SnapshotAction::Prepare => ActionView::Prepare,
            SnapshotAction::Git(a) => ActionView::Git(text::views(a@)),
            SnapshotAction::RemoveFiles(a) => ActionView::RemoveFiles(text::views(a@)),
            SnapshotAction::RemoveDirs(a) => ActionView::RemoveDirs(text::views(a@)),
            SnapshotAction::Finished => ActionView::Finished,
        }
    }
}

/// How far the taking of a snapshot is.
#[derive(Debug)]
pub enum TakeStage {
    Preparing,
    Staging,
    Writing,
    Scanning { tree: String },
    Looking { tree: String },
    Comparing { tree: String, newest: String },
    Committing { tree: String },
    Recording { commit: String, name: String },
    Listing { commit: String },
    Sparing { commit: String, refs: Vec<(String, String)> },
    Deleting { commit: String, stale: Vec<String> },
    Reclaiming { commit: String },
    Done(Result<String, String>),
}

/// What a [`TakeStage`] stands for.
#[verifier::ext_equal]
pub enum TakeView {
    Preparing,
    Staging,
    Writing,
    Scanning { tree: Seq<char> },
    Looking { tree: Seq<char> },
    Comparing { tree: Seq<char>, newest: Seq<char> },
    Committing { tree: Seq<char> },
    Recording { commit: Seq<char>, name: Seq<char> },
    Listing { commit: Seq<char> },
    Sparing { commit: Seq<char>, refs: Seq<(Seq<char>, Seq<char>)> },
    Deleting { commit: Seq<char>, stale: Seq<Seq<char>> },
    Reclaiming { commit: Seq<char> },
    Done(Result<Seq<char>, Seq<char>>),
}

impl View for TakeStage {
    type V = TakeView;

    open spec fn view(&self) -> TakeView {
        match self {
            TakeStage::Preparing => TakeView::Preparing,
            TakeStage::Staging => TakeView::Staging,
            TakeStage::Writing => TakeView::Writing,
            TakeStage::Scanning { tree } => TakeView::Scanning { tree: tree@ },
            TakeStage::Looking { tree } => TakeView::Looking { tree: tree@ },
            TakeStage::Comparing { tree, newest } => TakeView::Comparing {
                tree: tree@,
                newest: newest@,
            },
            TakeStage::Committing { tree } => TakeView::Committing { tree: tree@ },
            TakeStage::Recording { commit, name } => TakeView::Recording {
                commit: commit@,
                name: name@,
            },
            TakeStage::Listing { commit } => TakeView::Listing { commit: commit@ },
            TakeStage::Sparing { commit, refs } => TakeView::Sparing {
                commit: commit@,
                refs: snapshot::pairs(refs@),
            },
            TakeStage::Deleting { commit, stale } => TakeView::Deleting {
                commit: commit@,
                stale: text::views(stale@),
            },
            TakeStage::Reclaiming { commit } => TakeView::Reclaiming { commit: commit@ },
            TakeStage::Done(r) => TakeView::Done(text::text_or_text(*r)),
        }
    }
}

/// What the taking of a snapshot goes by.
#[derive(Debug)]
pub struct TakeTerms {
    pub label: String,
    /// How many snapshots are kept.
    pub keep_last: usize,
    /// How old objects that nothing refers to must be to go.
    pub expire: String,
    /// Which snapshot of the process this is.
    pub seq: u64,
    /// Whether repositories inside the workspace are looked for.
    pub scan: bool,
}

/// What [`TakeTerms`] stand for.
#[verifier::ext_equal]
pub struct TermsView {
    pub label: Seq<char>,
    pub keep_last: int,
    pub expire: Seq<char>,
    pub seq: nat,
    pub scan: bool,
}

impl View for TakeTerms {
    type V = TermsView;

    open spec fn view(&self) -> TermsView {
        TermsView {
            label: self.label@,
            keep_last: self.keep_last as int,
            expire: self.expire@,
            seq: self.seq as nat,
            scan: self.scan,
        }
    }
}

/// What is to be done next when a snapshot is taken.
pub open spec fn take_action(t: TermsView, s: TakeView) -> ActionView {
    match s {
        TakeView::Preparing => ActionView::Prepare,
        TakeView::Staging => ActionView::Git(seq!["add"@, "-A"@]),
        TakeView::Writing => ActionView::Git(seq!["write-tree"@]),
        TakeView::Scanning { tree } => ActionView::Git(seq!["ls-tree"@, "-r"@, tree]),
        TakeView::Looking { .. } => ActionView::Git(
            seq![
                "for-each-ref"@,
                "--count=1"@,
                "--sort=-refname"@,
                "--format=%(objectname)"@,
                SNAPSHOT_REF_PREFIX@,
            ],
        ),
        TakeView::Comparing { newest, .. } => ActionView::Git(
            seq!["rev-parse"@, newest + "^{tree}"@],
        ),
        TakeView::Committing { tree } => ActionView::Git(
            seq!["commit-tree"@, "-m"@, t.label, tree],
        ),
        TakeView::Recording { commit, name } => ActionView::Git(seq!["update-ref"@, name, commit]),
        TakeView::Listing { .. } => ActionView::Git(
            seq![
                "for-each-ref"@,
                "--sort=-refname"@,
                "--format=%(refname)%00%(objectname)"@,
                SNAPSHOT_REF_PREFIX@,
            ],
        ),
        TakeView::Sparing { .. } => ActionView::Git(
            seq!["for-each-ref"@, "--format=%(objectname)"@, RESTORE_PIN_REF_PREFIX@],
        ),
        TakeView::Deleting { stale, .. } => if stale.len() == 0 {
            ActionView::Finished
        } else {
            ActionView::Git(seq!["update-ref"@, "-d"@, stale[0]])
        },
        TakeView::Reclaiming { .. } => ActionView::Git(seq!["prune"@, "--expire="@ + t.expire]),
        TakeView::Done(_) => ActionView::Finished,
    }
}

/// The stage after a reply, where `now` is the time in milliseconds.
pub open spec fn take_next(
    t: TermsView,
    s: TakeView,
    reply: Result<Seq<char>, Seq<char>>,
    now: nat,
) -> TakeView {
    match s {
        TakeView::Preparing => match reply {
            Ok(_) => TakeView::Staging,
            Err(e) => TakeView::Done(Err(e)),
        },
        TakeView::Staging => match reply {
            Ok(_) => TakeView::Writing,
            Err(e) => TakeView::Done(
                Err("failed to stage workspace state for snapshot: "@ + e),
            ),
        },
        TakeView::Writing => match reply {
            Ok(out) => {
                let tree = text::trim_view(out);
                if t.scan {
                    TakeView::Scanning { tree }
                } else {
                    TakeView::Looking { tree }
                }
            },
            Err(e) => TakeView::Done(Err(e)),
        },
        TakeView::Scanning { tree } => TakeView::Looking { tree },
        TakeView::Looking { tree } => match reply {
            Ok(out) => {
                let newest = text::trim_view(out);
                if newest.len() == 0 {
                    TakeView::Committing { tree }
                } else {
                    TakeView::Comparing { tree, newest }
                }
            },
            Err(e) => TakeView::Done(Err(e)),
        },
        TakeView::Comparing { tree, newest } => match reply {
            Ok(out) => if text::trim_view(out) == tree {
                TakeView::Done(Ok(newest))
            } else {
                TakeView::Committing { tree }
            },
            Err(_) => TakeView::Committing { tree },
        },
        TakeView::Committing { .. } => match reply {
            Ok(out) => {
                let commit = text::trim_view(out);
                TakeView::Recording { commit, name: snapshot::ref_view(now, t.seq, commit) }
            },
            Err(e) => TakeView::Done(Err(e)),
        },
        TakeView::Recording { commit, .. } => match reply {
            Ok(_) => TakeView::Listing { commit },
            Err(e) => TakeView::Done(Err(e)),
        },
        TakeView::Listing { commit } => match reply {
            Ok(out) => {
                let refs = snapshot::refs_view(out);
                if refs.len() <= t.keep_last {
                    TakeView::Done(Ok(commit))
                } else {
                    TakeView::Sparing { commit, refs }
                }
            },
            Err(_) => TakeView::Done(Ok(commit)),
        },
        TakeView::Sparing { commit, refs } => match reply {
            Ok(out) => {
                let stale = snapshot::stale_from(
                    refs,
                    t.keep_last,
                    snapshot::pins_view(out),
                    refs.len() as int,
                );
                if stale.len() == 0 {
                    TakeView::Reclaiming { commit }
                } else {
                    TakeView::Deleting { commit, stale }
                }
            },
            Err(_) => TakeView::Done(Ok(commit)),
        },
        TakeView::Deleting { commit, stale } => match reply {
            Ok(_) => if stale.len() <= 1 {
                TakeView::Reclaiming { commit }
            } else {
                TakeView::Deleting { commit, stale: stale.drop_first() }
            },
            Err(_) => TakeView::Done(Ok(commit)),
        },
        TakeView::Reclaiming { commit } => TakeView::Done(Ok(commit)),
        TakeView::Done(r) => TakeView::Done(r),
    }
}

/// Once a snapshot is recorded nothing that follows fails it.
pub proof fn recorded_snapshots_stay(
    t: TermsView,
    s: TakeView,
    commit: Seq<char>,
    reply: Result<Seq<char>, Seq<char>>,
    now: nat,
)
    requires
        s is Listing || s is Sparing || s is Deleting || s is Reclaiming,
        s is Listing ==> s->Listing_commit == commit,
        s is Sparing ==> s->Sparing_commit == commit,
        s is Deleting ==> s->Deleting_commit == commit,
        s is Reclaiming ==> s->Reclaiming_commit == commit,
    ensures
        take_next(t, s, reply, now) matches TakeView::Done(r) ==> r == Ok::<Seq<char>, Seq<char>>(
            commit,
        ),
{
}

/// A workspace that is as the newest snapshot recorded it gets no snapshot of its own; where the
/// newest one cannot be read, it does.
pub proof fn unchanged_workspaces_reuse_the_newest(
    t: TermsView,
    tree: Seq<char>,
    newest: Seq<char>,
    reply: Result<Seq<char>, Seq<char>>,
    now: nat,
)
    ensures
        take_next(t, TakeView::Comparing { tree, newest }, reply, now) == (match reply {
            Ok(out) => if text::trim_view(out) == tree {
                TakeView::Done(Ok(newest))
            } else {
                TakeView::Committing { tree }
            },
            Err(_) => TakeView::Committing { tree },
        }),
{
}

/// How many stages lie ahead of one at most, but for the refs that are to go.
pub open spec fn take_rank(s: TakeView) -> nat {
    match s {
        TakeView::Preparing => 12,
        TakeView::Staging => 11,
        TakeView::Writing => 10,
        TakeView::Scanning { .. } => 9,
        TakeView::Looking { .. } => 8,
        TakeView::Comparing { .. } => 7,
        TakeView::Committing { .. } => 6,
        TakeView::Recording { .. } => 5,
        TakeView::Listing { .. } => 4,
        TakeView::Sparing { .. } => 3,
        TakeView::Deleting { .. } => 2,
        TakeView::Reclaiming { .. } => 1,
        TakeView::Done(_) => 0,
    }
}

/// The taking of a snapshot comes to an end: every reply leads to a later stage, or leaves fewer
/// refs to go.
pub proof fn taking_ends(
    t: TermsView,
    s: TakeView,
    reply: Result<Seq<char>, Seq<char>>,
    now: nat,
)
    requires
        !(s is Done),
    ensures
        ({
            let n = take_next(t, s, reply, now);
            take_rank(n) < take_rank(s) || (n is Deleting && s is Deleting
                && n->Deleting_stale.len() < s->Deleting_stale.len())
        }),
{
}

/// The path that a line of a tree listing names.
pub open spec fn nested_path(line: Seq<char>) -> Option<Seq<char>> {
    if !text::starts(line, "160000 "@) {
        None
    } else {
        let parts = text::split_view(line, '\t');
        if parts.len() >= 2 {
            Some(parts[1])
        } else {
            None
        }
    }
}

/// The repositories inside the workspace that the first `n` lines of a tree listing name.
pub open spec fn nested_from(ls: Seq<Seq<char>>, n: int) -> Seq<Seq<char>>
    decreases n,
{
    if n <= 0 {
        Seq::empty()
    } else {
        match nested_path(ls[n - 1]) {
            Some(p) => nested_from(ls, n - 1).push(p),
            None => nested_from(ls, n - 1),
        }
    }
}

/// The repositories inside the workspace that a tree listing names. A snapshot does not hold
/// their files.
pub fn nested_repositories(listing: &str) -> (r: Vec<String>)
    ensures
        text::views(r@) == nested_from(
            text::lines_view(listing@),
            text::lines_view(listing@).len() as int,
        ),
{
    let ls = lines(listing);
    let ghost lv = text::lines_view(listing@);
    let mut out: Vec<String> = Vec::new();
    let mut i: usize = 0;
    proof {
        text::lemma_views_empty(out@);
    }
    while i < ls.len()
        invariant
            i <= ls.len(),
            text::views(ls@) == lv,
            text::views(out@) == nested_from(lv, i as int),
        decreases ls.len() - i,
    {
        broadcast use text::lemma_views_push;

        assert(lv[i as int] == ls@[i as int]@);
        if starts_with(&ls[i], "160000 ") {
            let parts = split(&ls[i], '\t');
            assert(parts@.len() == text::split_view(lv[i as int], '\t').len());
            if parts.len() >= 2 {
                assert(parts@[1]@ == text::split_view(lv[i as int], '\t')[1]);
                out.push(own(&parts[1]));
            }
        }
        i += 1;
    }
    assert(lv.len() == ls@.len());
    out
}

/// The taking of a snapshot.
#[derive(Debug)]
pub struct Take {
    pub terms: TakeTerms,
    pub stage: TakeStage,
    /// The repositories inside the workspace that were found.
    pub nested: Vec<String>,
}

fn three(a: &str, b: &str, c: &str) -> (r: SnapshotAction)
    ensures
        r@ == ActionView::Git(seq![a@, b@, c@]),
{
    let v = vec![own(a), own(b), own(c)];
    assert(text::views(v@) =~= seq![a@, b@, c@]);
    SnapshotAction::Git(v)
}

fn two(a: &str, b: &str) -> (r: SnapshotAction)
    ensures
        r@ == ActionView::Git(seq![a@, b@]),
{
    let v = vec![own(a), own(b)];
    assert(text::views(v@) =~= seq![a@, b@]);
    SnapshotAction::Git(v)
}

/// A reply of git: what it printed, or why it failed.
pub open spec fn reply_view(r: Result<String, String>) -> Result<Seq<char>, Seq<char>> {
    text::text_or_text(r)
}

impl Take {
    /// What is to be done next.
    pub fn action(&self) -> (r: SnapshotAction)
        ensures
            r@ == take_action(self.terms@, self.stage@),
    {
        match &self.stage {
            TakeStage::Preparing => SnapshotAction::Prepare,
            TakeStage::Staging => two("add", "-A"),
            TakeStage::Writing => {
                let v = vec![own("write-tree")];
                assert(text::views(v@) =~= seq!["write-tree"@]);
                SnapshotAction::Git(v)
            },
            TakeStage::Scanning { tree } => three("ls-tree", "-r", tree),
            TakeStage::Looking { .. } => {
                let v = vec![
                    own("for-each-ref"),
                    own("--count=1"),
                    own("--sort=-refname"),
                    own("--format=%(objectname)"),
                    own(SNAPSHOT_REF_PREFIX),
                ];
                assert(text::views(v@) =~= seq![
                    "for-each-ref"@,
                    "--count=1"@,
                    "--sort=-refname"@,
                    "--format=%(objectname)"@,
                    SNAPSHOT_REF_PREFIX@,
                ]);
                SnapshotAction::Git(v)
            },
            TakeStage::Comparing { newest, .. } => two("rev-parse", &cat(newest, "^{tree}")),
            TakeStage::Committing { tree } => {
                let v = vec![own("commit-tree"), own("-m"), own(&self.terms.label), own(tree)];
                assert(text::views(v@) =~= seq![
                    "commit-tree"@,
                    "-m"@,
                    self.terms.label@,
                    tree@,
                ]);
                SnapshotAction::Git(v)
            },
            TakeStage::Recording { commit, name } => three("update-ref", name, commit),
            TakeStage::Listing { .. } => {
                let v = vec![
                    own("for-each-ref"),
                    own("--sort=-refname"),
                    own("--format=%(refname)%00%(objectname)"),
                    own(SNAPSHOT_REF_PREFIX),
                ];
                assert(text::views(v@) =~= seq![
                    "for-each-ref"@,
                    "--sort=-refname"@,
                    "--format=%(refname)%00%(objectname)"@,
                    SNAPSHOT_REF_PREFIX@,
                ]);
                SnapshotAction::Git(v)
            },
            TakeStage::Sparing { .. } => three(
                "for-each-ref",
                "--format=%(objectname)",
                RESTORE_PIN_REF_PREFIX,
            ),
            TakeStage::Deleting { stale, .. } => {
                assert(text::views(stale@).len() == stale@.len());
                if stale.len() == 0 {
                    SnapshotAction::Finished
                } else {
                    assert(text::views(stale@)[0] == stale@[0]@);
                    three("update-ref", "-d", &stale[0])
                }
            },
            TakeStage::Reclaiming { .. } => two("prune", &cat("--expire=", &self.terms.expire)),
            TakeStage::Done(_) => SnapshotAction::Finished,
        }
    }

    /// The taking of the snapshot after a reply, where `now` is the time in milliseconds.
    pub fn feed(self, reply: Result<String, String>, now: u128) -> (r: Take)
        ensures
            r.terms == self.terms,
            r.stage@ == take_next(self.terms@, self.stage@, reply_view(reply), now as nat),
            text::views(r.nested@) == (match (self.stage, reply) {
                (TakeStage::Scanning { .. }, Ok(out)) => nested_from(
                    text::lines_view(out@),
                    text::lines_view(out@).len() as int,
                ),
                _ => text::views(self.nested@),
            }),
    {
        let terms = self.terms;
        let mut nested = self.nested;
        let stage = match self.stage {
            TakeStage::Preparing => match reply {
                Ok(_) => TakeStage::Staging,
                Err(e) => TakeStage::Done(Err(e)),
            },
            TakeStage::Staging => match reply {
                Ok(_) => TakeStage::Writing,
                Err(e) => TakeStage::Done(
                    Err(cat("failed to stage workspace state for snapshot: ", &e)),
                ),
            },
            TakeStage::Writing => match reply {
                Ok(out) => {
                    let tree = trim(&out);
                    if terms.scan {
                        TakeStage::Scanning { tree }
                    } else {
                        TakeStage::Looking { tree }
                    }
                },
                Err(e) => TakeStage::Done(Err(e)),
            },
            TakeStage::Scanning { tree } => {
                if let Ok(out) = &reply {
                    nested = nested_repositories(out);
                }
                TakeStage::Looking { tree }
            },
            TakeStage::Looking { tree } => match reply {
                Ok(out) => {
                    let newest = trim(&out);
                    if newest.as_str().is_empty() {
                        TakeStage::Committing { tree }
                    } else {
                        TakeStage::Comparing { tree, newest }
                    }
                },
                Err(e) => TakeStage::Done(Err(e)),
            },
            TakeStage::Comparing { tree, newest } => match reply {
                Ok(out) => {
                    if same(&trim(&out), &tree) {
                        TakeStage::Done(Ok(newest))
                    } else {
                        TakeStage::Committing { tree }
                    }
                },
                Err(_) => TakeStage::Committing { tree },
            },
            TakeStage::Committing { .. } => match reply {
                Ok(out) => {
                    let commit = trim(&out);
                    let name = ref_name(now, terms.seq, &commit);
                    TakeStage::Recording { commit, name }
                },
                Err(e) => TakeStage::Done(Err(e)),
            },
            TakeStage::Recording { commit, .. } => match reply {
                Ok(_) => TakeStage::Listing { commit },
                Err(e) => TakeStage::Done(Err(e)),
            },
            TakeStage::Listing { commit } => match reply {
                Ok(out) => {
                    let refs = parse_refs(&out);
                    assert(snapshot::pairs(refs@).len() == refs@.len());
                    if refs.len() <= terms.keep_last {
                        TakeStage::Done(Ok(commit))
                    } else {
                        TakeStage::Sparing { commit, refs }
                    }
                },
                Err(_) => TakeStage::Done(Ok(commit)),
            },
            TakeStage::Sparing { commit, refs } => match reply {
                Ok(out) => {
                    let pins = parse_pins(&out);
                    let stale = stale_refs(&refs, terms.keep_last, &pins);
                    assert(snapshot::pairs(refs@).len() == refs@.len());
                    assert(text::views(stale@).len() == stale@.len());
                    if stale.len() == 0 {
                        TakeStage::Reclaiming { commit }
                    } else {
                        TakeStage::Deleting { commit, stale }
                    }
                },
                Err(_) => TakeStage::Done(Ok(commit)),
            },
            TakeStage::Deleting { commit, stale } => match reply {
                Ok(_) => {
                    assert(text::views(stale@).len() == stale@.len());
                    if stale.len() <= 1 {
                        TakeStage::Reclaiming { commit }
                    } else {
                        let mut rest: Vec<String> = Vec::new();
                        let n: usize = stale.len();
                        push_range(&mut rest, &stale, 1, n);
                        assert(text::views(rest@) =~= text::views(stale@).drop_first());
                        TakeStage::Deleting { commit, stale: rest }
                    }
                },
                Err(_) => TakeStage::Done(Ok(commit)),
            },
            TakeStage::Reclaiming { commit } => TakeStage::Done(Ok(commit)),
            TakeStage::Done(r) => TakeStage::Done(r),
        };
        Take { terms, stage, nested }
    }

    /// The outcome, where there is one: the id of the snapshot, or why there is none.
    pub fn outcome(self) -> (r: Option<Result<SnapshotId, String>>)
        ensures
            r is Some <==> self.stage is Done,
            r matches Some(Ok(id)) ==> self.stage@ == TakeView::Done(Ok(id@)),
            r matches Some(Err(e)) ==> self.stage@ == TakeView::Done(Err(e@)),
    {
        match self.stage {
            TakeStage::Done(Ok(id)) => Some(Ok(SnapshotId(id))),
            TakeStage::Done(Err(e)) => Some(Err(e)),
            _ => None,
        }
    }
}

/// How far a restore is.
#[derive(Debug)]
pub enum RestoreStage {
    Resolving,
    Pinning { full: String },
    Recording { full: String, take: Take },
    Diffing { full: String },
    Probing { full: String, created: String },
    CheckingOut { full: String, created: String },
    Removing { full: String, files: Vec<String> },
    Sweeping { full: String, files: Vec<String> },
    Unpinning { full: String, result: Result<(), String> },
    Done(Result<(), String>),
}

/// What a [`RestoreStage`] stands for.
#[verifier::ext_equal]
pub enum RestoreView {
    Resolving,
    Pinning { full: Seq<char> },
    Recording { full: Seq<char>, terms: TermsView, take: TakeView },
    Diffing { full: Seq<char> },
    Probing { full: Seq<char>, created: Seq<char> },
    CheckingOut { full: Seq<char>, created: Seq<char> },
    Removing { full: Seq<char>, files: Seq<Seq<char>> },
    Sweeping { full: Seq<char>, files: Seq<Seq<char>> },
    Unpinning { full: Seq<char>, result: Result<(), Seq<char>> },
    Done(Result<(), Seq<char>>),
}

/// A result without a value.
pub open spec fn bare_result(r: Result<(), String>) -> Result<(), Seq<char>> {
    match r {
        Ok(_) => Ok(()),
        Err(e) => Err(e@),
    }
}

impl View for RestoreStage {
    type V = RestoreView;

    open spec fn view(&self) -> RestoreView {
        match self {
            RestoreStage::Resolving => RestoreView::Resolving,
            RestoreStage::Pinning { full } => RestoreView::Pinning { full: full@ },
            RestoreStage::Recording { full, take } => RestoreView::Recording {
                full: full@,
                terms: take.terms@,
                take: take.stage@,
            },
            RestoreStage::Diffing { full } => RestoreView::Diffing { full: full@ },
            RestoreStage::Probing { full, created } => RestoreView::Probing {
                full: full@,
                created: created@,
            },
            RestoreStage::CheckingOut { full, created } => RestoreView::CheckingOut {
                full: full@,
                created: created@,
            },
            RestoreStage::Removing { full, files } => RestoreView::Removing {
                full: full@,
                files: text::views(files@),
            },
            RestoreStage::Sweeping { full, files } => RestoreView::Sweeping {
                full: full@,
                files: text::views(files@),
            },
            RestoreStage::Unpinning { full, result } => RestoreView::Unpinning {
                full: full@,
                result: bare_result(*result),
            },
            RestoreStage::Done(r) => RestoreView::Done(bare_result(*r)),
        }
    }
}

/// The ref that holds the target of a restore.
pub open spec fn pin_view(full: Seq<char>) -> Seq<char> {
    RESTORE_PIN_REF_PREFIX@ + "/"@ + full
}

/// What is to be done next in a restore. The directories above the files that went are removed
/// where they are empty.
pub open spec fn restore_action(raw: Seq<char>, s: RestoreView, windows: bool) -> ActionView {
    match s {
        RestoreView::Resolving => ActionView::Git(
            seq!["rev-parse"@, "--verify"@, "--quiet"@, raw + "^{commit}"@],
        ),
        RestoreView::Pinning { full } => ActionView::Git(
            seq!["update-ref"@, pin_view(full), full],
        ),
        RestoreView::Recording { terms, take, .. } => take_action(terms, take),
        RestoreView::Diffing { full } => ActionView::Git(
            seq!["diff"@, "--cached"@, "--name-only"@, "--diff-filter=A"@, "-z"@, full],
        ),
        RestoreView::Probing { full, .. } => ActionView::Git(
            seq!["ls-tree"@, "--name-only"@, full],
        ),
        RestoreView::CheckingOut { full, .. } => ActionView::Git(
            seq!["checkout"@, "-f"@, full, "--"@, "."@],
        ),
        RestoreView::Removing { files, .. } => ActionView::RemoveFiles(files),
        RestoreView::Sweeping { files, .. } => ActionView::RemoveDirs(
            restore_paths::swept(files, windows),
        ),
        RestoreView::Unpinning { full, .. } => ActionView::Git(
            seq!["update-ref"@, "-d"@, pin_view(full)],
        ),
        RestoreView::Done(_) => ActionView::Finished,
    }
}

/// The stage of a restore after a reply. Files are touched only once the present state is
/// recorded, and whatever happens then, the target is let go at the end.
pub open spec fn restore_next(
    raw: Seq<char>,
    terms: TermsView,
    s: RestoreView,
    reply: Result<Seq<char>, Seq<char>>,
    now: nat,
    windows: bool,
) -> RestoreView {
    match s {
        RestoreView::Resolving => match reply {
            Ok(out) => RestoreView::Pinning { full: text::trim_view(out) },
            Err(_) => RestoreView::Done(Err("snapshot "@ + raw + " not found"@)),
        },
        RestoreView::Pinning { full } => match reply {
            Ok(_) => RestoreView::Recording { full, terms, take: TakeView::Preparing },
            Err(e) => RestoreView::Done(Err("failed to pin restore target: "@ + e)),
        },
        RestoreView::Recording { full, terms, take } => match take_next(terms, take, reply, now) {
            TakeView::Done(Ok(_)) => RestoreView::Diffing { full },
            TakeView::Done(Err(e)) => RestoreView::Unpinning {
                full,
                result: Err("failed to record pre-restore snapshot: "@ + e),
            },
            take => RestoreView::Recording { full, terms, take },
        },
        RestoreView::Diffing { full } => match reply {
            Ok(created) => RestoreView::Probing { full, created },
            Err(e) => RestoreView::Unpinning { full, result: Err(e) },
        },
        RestoreView::Probing { full, created } => match reply {
            Ok(out) => if text::trim_view(out).len() > 0 {
                RestoreView::CheckingOut { full, created }
            } else {
                RestoreView::Removing {
                    full,
                    files: restore_paths::removable_view(created, windows),
                }
            },
            Err(e) => RestoreView::Unpinning { full, result: Err(e) },
        },
        RestoreView::CheckingOut { full, created } => match reply {
            Ok(_) => RestoreView::Removing {
                full,
                files: restore_paths::removable_view(created, windows),
            },
            Err(e) => RestoreView::Unpinning {
                full,
                result: Err("failed to check out snapshot content: "@ + e),
            },
        },
        RestoreView::Removing { full, files } => RestoreView::Sweeping { full, files },
        RestoreView::Sweeping { full, .. } => RestoreView::Unpinning { full, result: Ok(()) },
        RestoreView::Unpinning { result, .. } => RestoreView::Done(result),
        RestoreView::Done(r) => RestoreView::Done(r),
    }
}

/// Whether files of the workspace are touched at a stage of a restore.
pub open spec fn touches_files(s: RestoreView) -> bool {
    s is CheckingOut || s is Removing || s is Sweeping
}

/// Whether a restore has recorded the state that it found.
pub open spec fn has_recorded(s: RestoreView) -> bool {
    s is Diffing || s is Probing || touches_files(s)
}

/// A restore touches files only after the state that it found was recorded: the one way there is
/// the end of that snapshot, and it leads on only where the snapshot was taken.
pub proof fn restores_can_be_undone(
    raw: Seq<char>,
    terms: TermsView,
    s: RestoreView,
    reply: Result<Seq<char>, Seq<char>>,
    now: nat,
    windows: bool,
)
    requires
        has_recorded(restore_next(raw, terms, s, reply, now, windows)),
        !has_recorded(s),
    ensures
        s is Recording,
        take_next(s->Recording_terms, s->Recording_take, reply, now) matches TakeView::Done(Ok(_)),
        !touches_files(restore_next(raw, terms, s, reply, now, windows)),
{
}

/// A restore that pinned its target ends only by letting it go: the stages from then on lead to
/// an end through that of unpinning alone.
pub proof fn pins_are_let_go(
    raw: Seq<char>,
    terms: TermsView,
    s: RestoreView,
    reply: Result<Seq<char>, Seq<char>>,
    now: nat,
    windows: bool,
)
    requires
        restore_next(raw, terms, s, reply, now, windows) is Done,
    ensures
        s is Resolving || s is Pinning || s is Unpinning || s is Done,
        s is Pinning ==> reply is Err,
{
}

/// A restore.
#[derive(Debug)]
pub struct Restore {
    /// The id that was asked for.
    pub raw: String,
    /// What the snapshot of the present state goes by.
    pub terms: TakeTerms,
    pub stage: RestoreStage,
    /// Whether paths are those of Windows.
    pub windows: bool,
}

fn copy_terms(t: &TakeTerms) -> (r: TakeTerms)
    ensures
        r@ == t@,
{
    TakeTerms {
        label: own(&t.label),
        keep_last: t.keep_last,
        expire: own(&t.expire),
        seq: t.seq,
        scan: t.scan,
    }
}

impl Restore {
    /// What is to be done next.
    pub fn action(&self) -> (r: SnapshotAction)
        ensures
            r@ == restore_action(self.raw@, self.stage@, self.windows),
    {
        match &self.stage {
            RestoreStage::Resolving => {
                let v = vec![
                    own("rev-parse"),
                    own("--verify"),
                    own("--quiet"),
                    cat(&self.raw, "^{commit}"),
                ];
                assert(text::views(v@) =~= seq![
                    "rev-parse"@,
                    "--verify"@,
                    "--quiet"@,
                    self.raw@ + "^{commit}"@,
                ]);
                SnapshotAction::Git(v)
            },
            RestoreStage::Pinning { full } => three(
                "update-ref",
                &cat3(RESTORE_PIN_REF_PREFIX, "/", full),
                full,
            ),
            RestoreStage::Recording { take, .. } => take.action(),
            RestoreStage::Diffing { full } => {
                let v = vec![
                    own("diff"),
                    own("--cached"),
                    own("--name-only"),
                    own("--diff-filter=A"),
                    own("-z"),
                    own(full),
                ];
                assert(text::views(v@) =~= seq![
                    "diff"@,
                    "--cached"@,
                    "--name-only"@,
                    "--diff-filter=A"@,
                    "-z"@,
                    full@,
                ]);
                SnapshotAction::Git(v)
            },
            RestoreStage::Probing { full, .. } => three("ls-tree", "--name-only", full),
            RestoreStage::CheckingOut { full, .. } => {
                let v = vec![own("checkout"), own("-f"), own(full), own("--"), own(".")];
                assert(text::views(v@) =~= seq!["checkout"@, "-f"@, full@, "--"@, "."@]);
                SnapshotAction::Git(v)
            },
            RestoreStage::Removing { files, .. } => {
                let mut v: Vec<String> = Vec::new();
                let n: usize = files.len();
                push_range(&mut v, files, 0, n);
                assert(v@ =~= files@);
                SnapshotAction::RemoveFiles(v)
            },
            RestoreStage::Sweeping { files, .. } => {
                assert(text::views(files@).len() == files@.len());
                SnapshotAction::RemoveDirs(dirs_above(files, self.windows))
            },
            RestoreStage::Unpinning { full, .. } => three(
                "update-ref",
                "-d",
                &cat3(RESTORE_PIN_REF_PREFIX, "/", full),
            ),
            RestoreStage::Done(_) => SnapshotAction::Finished,
        }
    }

    /// The restore after a reply, where `now` is the time in milliseconds.
    pub fn feed(self, reply: Result<String, String>, now: u128) -> (r: Restore)
        ensures
            r.raw == self.raw,
            r.terms == self.terms,
            r.windows == self.windows,
            r.stage@ == restore_next(
                self.raw@,
                self.terms@,
                self.stage@,
                reply_view(reply),
                now as nat,
                self.windows,
            ),
    {
        let windows = self.windows;
        let raw = self.raw;
        let terms = self.terms;
        let stage = match self.stage {
            RestoreStage::Resolving => match reply {
                Ok(out) => RestoreStage::Pinning { full: trim(&out) },
                Err(_) => RestoreStage::Done(Err(cat3("snapshot ", &raw, " not found"))),
            },
            RestoreStage::Pinning { full } => match reply {
                Ok(_) => RestoreStage::Recording {
                    full,
                    take: Take {
                        terms: copy_terms(&terms),
                        stage: TakeStage::Preparing,
                        nested: Vec::new(),
                    },
                },
                Err(e) => RestoreStage::Done(Err(cat("failed to pin restore target: ", &e))),
            },
            RestoreStage::Recording { full, take } => {
                let next = take.feed(reply, now);
                match next.stage {
                    TakeStage::Done(Ok(_)) => RestoreStage::Diffing { full },
                    TakeStage::Done(Err(e)) => RestoreStage::Unpinning {
                        full,
                        result: Err(cat("failed to record pre-restore snapshot: ", &e)),
                    },
                    stage => RestoreStage::Recording {
                        full,
                        take: Take { terms: next.terms, stage, nested: next.nested },
                    },
                }
            },
            RestoreStage::Diffing { full } => match reply {
                Ok(created) => RestoreStage::Probing { full, created },
                Err(e) => RestoreStage::Unpinning { full, result: Err(e) },
            },
            RestoreStage::Probing { full, created } => match reply {
                Ok(out) => {
                    if !trim(&out).as_str().is_empty() {
                        RestoreStage::CheckingOut { full, created }
                    } else {
                        RestoreStage::Removing { full, files: removable(&created, windows) }
                    }
                },
                Err(e) => RestoreStage::Unpinning { full, result: Err(e) },
            },
            RestoreStage::CheckingOut { full, created } => match reply {
                Ok(_) => RestoreStage::Removing { full, files: removable(&created, windows) },
                Err(e) => RestoreStage::Unpinning {
                    full,
                    result: Err(cat("failed to check out snapshot content: ", &e)),
                },
            },
            RestoreStage::Removing { full, files } => RestoreStage::Sweeping { full, files },
            RestoreStage::Sweeping { full, .. } => RestoreStage::Unpinning { full, result: Ok(()) },
            RestoreStage::Unpinning { result, .. } => RestoreStage::Done(result),
            RestoreStage::Done(r) => RestoreStage::Done(r),
        };
        Restore { raw, terms, stage, windows }
    }
}

/// The snapshots of one workspace.
#[derive(Debug)]
pub struct SnapshotManager {
    git: String,
    snapshots_root: String,
    git_dir: String,
    workspace: String,
    keep_last: usize,
    prune_expire: String,
    seq: u64,
    scanned: bool,
    windows: bool,
}

/// What a [`SnapshotManager`] stands for.
#[verifier::ext_equal]
pub struct ManagerView {
    /// The git program.
    pub git: Seq<char>,
    /// Where the snapshots of all workspaces are.
    pub snapshots_root: Seq<char>,
    /// The repository of the snapshots of this one.
    pub git_dir: Seq<char>,
    pub workspace: Seq<char>,
    pub keep_last: int,
    pub prune_expire: Seq<char>,
    /// Which snapshot of the process comes next.
    pub seq: u64,
    /// Whether repositories inside the workspace were looked for.
    pub scanned: bool,
    /// Whether paths are those of Windows.
    pub windows: bool,
}

impl View for SnapshotManager {
    type V = ManagerView;

    closed spec fn view(&self) -> ManagerView {
        ManagerView {
            git: self.git@,
            snapshots_root: self.snapshots_root@,
            git_dir: self.git_dir@,
            workspace: self.workspace@,
            keep_last: self.keep_last as int,
            prune_expire: self.prune_expire@,
            seq: self.seq,
            scanned: self.scanned,
            windows: self.windows,
        }
    }
}

/// The manager of a workspace's snapshots. At least one snapshot is kept.
pub open spec fn managed(
    git: Seq<char>,
    snapshots_root: Seq<char>,
    workspace: Seq<char>,
    keep_last: int,
    windows: bool,
) -> ManagerView {
    ManagerView {
        git,
        snapshots_root,
        git_dir: paths::joined(
            snapshots_root,
            snapshot::hex_text(snapshot::sha256(vstd::utf8::encode_utf8(workspace)).take(8)),
            windows,
        ),
        workspace,
        keep_last: if keep_last < 1 {
            1
        } else {
            keep_last
        },
        prune_expire: DEFAULT_PRUNE_EXPIRE@,
        seq: 0,
        scanned: false,
        windows,
    }
}

/// What the next snapshot goes by.
pub open spec fn next_terms(m: ManagerView, label: Seq<char>) -> TermsView {
    TermsView {
        label: snapshot::label_view(label),
        keep_last: m.keep_last,
        expire: m.prune_expire,
        seq: m.seq as nat,
        scan: !m.scanned,
    }
}

/// The number after one of a snapshot.
pub open spec fn next_seq(seq: nat) -> u64 {
    if seq == u64::MAX {
        0
    } else {
        (seq + 1) as u64
    }
}

/// The manager once the taking of a snapshot has come to a stage: repositories inside the
/// workspace are looked for once, and a number is used up by the snapshot that is recorded.
pub open spec fn followed(m: ManagerView, terms: TermsView, stage: TakeView) -> ManagerView {
    match stage {
        TakeView::Scanning { .. } => ManagerView { scanned: true, ..m },
        TakeView::Recording { .. } => ManagerView { seq: next_seq(terms.seq), ..m },
        _ => m,
    }
}

/// The file that is always empty.
pub open spec fn nothing(windows: bool) -> Seq<char> {
    if windows {
        "NUL"@
    } else {
        "/dev/null"@
    }
}

/// The file that is always empty.
pub fn null_device(windows: bool) -> (r: &'static str)
    ensures
        r@ == nothing(windows),
{
    if windows {
        "NUL"
    } else {
        "/dev/null"
    }
}

/// The options that every git command has: its own repository and no other, the workspace, and
/// nothing of the user's own configuration.
pub open spec fn base_args(m: ManagerView) -> Seq<Seq<char>> {
    seq![
        "--git-dir"@,
        m.git_dir,
        "--work-tree"@,
        m.workspace,
        "-c"@,
        "user.name=octos-snapshot"@,
        "-c"@,
        "user.email=snapshot@octos.invalid"@,
        "-c"@,
        "commit.gpgsign=false"@,
        "-c"@,
        "core.autocrlf=false"@,
        "-c"@,
        "gc.auto=0"@,
        "-c"@,
        "core.hooksPath="@ + paths::joined(m.git_dir, "_no_hooks"@, m.windows),
        "-c"@,
        "core.excludesFile="@ + nothing(m.windows),
    ]
}

/// The variables that could lead git to another repository; no command sees them.
pub open spec fn scrubbed_view() -> Seq<Seq<char>> {
    seq![
        "GIT_DIR"@,
        "GIT_WORK_TREE"@,
        "GIT_INDEX_FILE"@,
        "GIT_OBJECT_DIRECTORY"@,
        "GIT_ALTERNATE_OBJECT_DIRECTORIES"@,
        "GIT_COMMON_DIR"@,
        "GIT_NAMESPACE"@,
        "GIT_CEILING_DIRECTORIES"@,
        "GIT_TEMPLATE_DIR"@,
        "GIT_INDEX_VERSION"@,
    ]
}

/// The variables that could lead git to another repository; no command sees them.
pub fn scrubbed_git_env() -> (r: Vec<String>)
    ensures
        text::views(r@) == scrubbed_view(),
{
    let r = vec![
        own("GIT_DIR"),
        own("GIT_WORK_TREE"),
        own("GIT_INDEX_FILE"),
        own("GIT_OBJECT_DIRECTORY"),
        own("GIT_ALTERNATE_OBJECT_DIRECTORIES"),
        own("GIT_COMMON_DIR"),
        own("GIT_NAMESPACE"),
        own("GIT_CEILING_DIRECTORIES"),
        own("GIT_TEMPLATE_DIR"),
        own("GIT_INDEX_VERSION"),
    ];
    assert(text::views(r@) =~= scrubbed_view());
    r
}

/// The paths that git's listing names, each ended by a NUL.
pub open spec fn ended_parts(s: Seq<char>) -> Seq<Seq<char>> {
    let parts = text::split_view(s, '\0');
    if parts.len() > 0 && parts.last().len() == 0 {
        parts.drop_last()
    } else {
        parts
    }
}

/// The paths that git's listing names, each ended by a NUL.
pub fn parse_paths(listing: &str) -> (r: Vec<String>)
    ensures
        text::views(r@) == ended_parts(listing@),
{
    let mut parts = split(listing, '\0');
    let ghost pv = text::split_view(listing@, '\0');
    let n: usize = parts.len();
    assert(pv.len() == n);
    if n > 0 {
        assert(pv.last() == parts@[n - 1]@);
        if parts[n - 1].as_str().is_empty() {
            let _ = parts.pop();
            assert(text::views(parts@) =~= pv.drop_last());
        }
    }
    parts
}

/// Why a git command failed.
pub fn git_failure(first_arg: &str, status: &str, stderr: &[u8]) -> (r: String)
    ensures
        r@ == "git "@ + first_arg@ + " failed ("@ + status@ + ("): "@ + text::trim_view(
            bytes::lossy(stderr@),
        )),
{
    let said = trim(&from_utf8_lossy(stderr));
    cat5("git ", first_arg, " failed (", status, &cat("): ", &said))
}

impl SnapshotManager {
    /// The manager of the snapshots of a workspace, where git was found.
    pub fn new(
        git: Option<String>,
        snapshots_root: String,
        workspace: String,
        keep_last: usize,
        windows: bool,
    ) -> (r: Option<Self>)
        ensures
            r is Some <==> git is Some,
            r matches Some(m) ==> m@ == managed(
                git->0@,
                snapshots_root@,
                workspace@,
                keep_last as int,
                windows,
            ),
    {
        match git {
            Some(git) => Some(
                SnapshotManager::with_git_binary(
                    git,
                    snapshots_root,
                    workspace,
                    keep_last,
                    windows,
                ),
            ),
            None => None,
        }
    }

    /// The manager of the snapshots of a workspace, by the git program at a path. The
    /// workspace's path is the one that it has without links.
    pub fn with_git_binary(
        git: String,
        snapshots_root: String,
        workspace: String,
        keep_last: usize,
        windows: bool,
    ) -> (r: Self)
        ensures
            r@ == managed(git@, snapshots_root@, workspace@, keep_last as int, windows),
    {
        let git_dir = join_paths(&snapshots_root, &workspace_hash(&workspace), windows);
        SnapshotManager {
            git,
            snapshots_root,
            git_dir,
            workspace,
            keep_last: if keep_last < 1 {
                1
            } else {
                keep_last
            },
            prune_expire: own(DEFAULT_PRUNE_EXPIRE),
            seq: 0,
            scanned: false,
            windows,
        }
    }

    /// The git program.
    pub fn git(&self) -> (r: &str)
        ensures
            r@ == self@.git,
    {
        self.git.as_str()
    }

    /// Where the snapshots of all workspaces are.
    pub fn snapshots_root(&self) -> (r: &str)
        ensures
            r@ == self@.snapshots_root,
    {
        self.snapshots_root.as_str()
    }

    /// Whether paths are those of Windows.
    pub fn windows(&self) -> (r: bool)
        ensures
            r == self@.windows,
    {
        self.windows
    }

    /// The workspace.
    pub fn workspace(&self) -> (r: &str)
        ensures
            r@ == self@.workspace,
    {
        self.workspace.as_str()
    }

    /// The repository of the snapshots, which is never the user's own.
    pub fn git_dir(&self) -> (r: &str)
        ensures
            r@ == self@.git_dir,
    {
        self.git_dir.as_str()
    }

    /// How old objects that nothing refers to must be to go.
    pub fn prune_expire(&self) -> (r: &str)
        ensures
            r@ == self@.prune_expire,
    {
        self.prune_expire.as_str()
    }

    /// All arguments of a git command.
    pub fn git_args(&self, args: &Vec<String>) -> (r: Vec<String>)
        ensures
            text::views(r@) == base_args(self@) + text::views(args@),
    {
        let mut out = vec![
            own("--git-dir"),
            own(&self.git_dir),
            own("--work-tree"),
            own(&self.workspace),
            own("-c"),
            own("user.name=octos-snapshot"),
            own("-c"),
            own("user.email=snapshot@octos.invalid"),
            own("-c"),
            own("commit.gpgsign=false"),
            own("-c"),
            own("core.autocrlf=false"),
            own("-c"),
            own("gc.auto=0"),
            own("-c"),
            cat("core.hooksPath=", &join_paths(&self.git_dir, "_no_hooks", self.windows)),
            own("-c"),
            cat("core.excludesFile=", null_device(self.windows)),
        ];
        assert(text::views(out@) =~= base_args(self@));
        let ghost before = out@;
        let n: usize = args.len();
        push_range(&mut out, args, 0, n);
        assert(out@ =~= before + args@);
        assert(text::views(out@) =~= base_args(self@) + text::views(args@));
        out
    }

    /// Begins a snapshot of the workspace as it is.
    pub fn take_snapshot(&self, label: &str) -> (r: Take)
        ensures
            r.terms@ == next_terms(self@, label@),
            r.stage@ == TakeView::Preparing,
            text::views(r.nested@) == Seq::<Seq<char>>::empty(),
    {
        let terms = self.terms(label);
        let nested: Vec<String> = Vec::new();
        proof {
            text::lemma_views_empty(nested@);
        }
        Take { terms, stage: TakeStage::Preparing, nested }
    }

    fn terms(&self, label: &str) -> (r: TakeTerms)
        ensures
            r@ == next_terms(self@, label@),
    {
        TakeTerms {
            label: sanitize_label(label),
            keep_last: self.keep_last,
            expire: own(&self.prune_expire),
            seq: self.seq,
            scan: !self.scanned,
        }
    }

    /// Keeps up with the taking of a snapshot.
    pub fn follow(&mut self, take: &Take)
        ensures
            final(self)@ == followed(old(self)@, take.terms@, take.stage@),
    {
        match &take.stage {
            TakeStage::Scanning { .. } => {
                self.scanned = true;
            },
            TakeStage::Recording { .. } => {
                self.seq = if take.terms.seq == u64::MAX {
                    0
                } else {
                    take.terms.seq + 1
                };
            },
            _ => {},
        }
    }

    /// Keeps up with a restore, which takes a snapshot on its way.
    pub fn follow_restore(&mut self, restore: &Restore)
        ensures
            final(self)@ == (match restore.stage@ {
                RestoreView::Recording { terms, take, .. } => followed(old(self)@, terms, take),
                _ => old(self)@,
            }),
    {
        match &restore.stage {
            RestoreStage::Recording { take, .. } => {
                self.follow(take);
            },
            _ => {},
        }
    }

    /// Begins a restore, where there are snapshots and the id can be that of one. The id goes to
    /// git only then.
    pub fn restore(&self, id: &SnapshotId, has_repo: bool) -> (r: Result<Restore, String>)
        ensures
            match r {
                Ok(restore) => {
                    &&& has_repo && snapshot::hash_like(id@)
                    &&& restore.raw@ == id@
                    &&& restore.stage@ == RestoreView::Resolving
                    &&& restore.windows == self@.windows
                    &&& restore.terms@ == next_terms(self@, "pre-restore"@)
                },
                Err(e) => {
                    &&& !has_repo || !snapshot::hash_like(id@)
                    &&& e@ == (if !has_repo {
                        "no snapshots have been taken for this workspace"@
                    } else {
                        "invalid snapshot id "@ + text::debug_text(id@)
                            + ": expected a hex commit hash"@
                    })
                },
            },
    {
        if !has_repo {
            return Err(own("no snapshots have been taken for this workspace"));
        }
        if !id.is_hash() {
            return Err(
                cat3(
                    "invalid snapshot id ",
                    &debug_string(id.as_str()),
                    ": expected a hex commit hash",
                ),
            );
        }
        let terms = self.terms("pre-restore");
        Ok(
            Restore {
                raw: own(id.as_str()),
                terms,
                stage: RestoreStage::Resolving,
                windows: self.windows,
            },
        )
    }

    /// The git command that lists the paths of a snapshot, where the id can be that of one.
    pub fn snapshot_paths(&self, id: &SnapshotId) -> (r: Result<Vec<String>, String>)
        ensures
            (match r {
                Ok(args) => Ok(text::views(args@)),
                Err(e) => Err(e@),
            }) == (if snapshot::hash_like(id@) {
                Ok(seq!["ls-tree"@, "-r"@, "--name-only"@, "-z"@, id@])
            } else {
                Err("invalid snapshot id"@)
            }),
    {
        if !id.is_hash() {
            return Err(own("invalid snapshot id"));
        }
        let v = vec![
            own("ls-tree"),
            own("-r"),
            own("--name-only"),
            own("-z"),
            own(id.as_str()),
        ];
        assert(text::views(v@) =~= seq!["ls-tree"@, "-r"@, "--name-only"@, "-z"@, id@]);
        Ok(v)
    }

    /// The git command that lists the snapshots, the newest first.
    pub fn list_command(&self) -> (r: Vec<String>)
        ensures
            text::views(r@) == seq![
                "for-each-ref"@,
                "--sort=-refname"@,
                "--format=%(objectname)%00%(creatordate:unix)%00%(subject)"@,
                SNAPSHOT_REF_PREFIX@,
            ],
    {
        let v = vec![
            own("for-each-ref"),
            own("--sort=-refname"),
            own("--format=%(objectname)%00%(creatordate:unix)%00%(subject)"),
            own(SNAPSHOT_REF_PREFIX),
        ];
        assert(text::views(v@) =~= seq![
            "for-each-ref"@,
            "--sort=-refname"@,
            "--format=%(objectname)%00%(creatordate:unix)%00%(subject)"@,
            SNAPSHOT_REF_PREFIX@,
        ]);
        v
    }

    /// The snapshots that are kept, the newest first, given git's listing; none where there is
    /// no repository yet.
    pub fn list_snapshots(&self, listing: Option<&str>) -> (r: Vec<SnapshotInfo>)
        ensures
            text::views(r@) == (match listing {
                Some(l) => snapshot::listed_from(
                    text::lines_view(l@),
                    text::lines_view(l@).len() as int,
                ),
                None => Seq::empty(),
            }),
    {
        match listing {
            Some(l) => parse_snapshots(l),
            None => {
                let v: Vec<SnapshotInfo> = Vec::new();
                proof {
                    text::lemma_views_empty(v@);
                }
                v
            },
        }
    }
}

/// Every git command works on the repository of the snapshots and on the workspace, whatever
/// else it is given.
pub proof fn commands_use_their_own_repository(m: ManagerView, args: Seq<Seq<char>>)
    ensures
        ({
            let all = base_args(m) + args;
            all[0] == "--git-dir"@ && all[1] == m.git_dir && all[2] == "--work-tree"@ && all[3]
                == m.workspace
        }),
{
}

} // verus!
