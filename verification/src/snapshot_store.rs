//! What becomes of the snapshots of a workspace: a model of what git keeps, and the laws that the
//! taking of snapshots and restores keep on it.

use vstd::prelude::*;

use crate::restored_files;
use crate::restored_files::Tree;
use crate::snapshot;
use crate::snapshot_manager;
use crate::snapshot_manager::{ActionView, RestoreView, TakeView, TermsView};
use crate::text;

verus! {

/// Refs with their commits, by descending name: the newest comes first.
pub type Refs = Seq<(Seq<char>, Seq<char>)>;

/// A commit: the files that it records, and its label.
#[verifier::ext_equal]
pub struct Commit {
    pub tree: Tree,
    pub label: Seq<char>,
}

/// What git keeps of a workspace, and the workspace.
#[verifier::ext_equal]
pub struct Store {
    /// The files of the workspace that snapshots cover.
    pub files: Tree,
    /// The other files of the workspace: those that are ignored, and the user's own repository.
    pub others: Tree,
    /// Those that are staged.
    pub staged: Tree,
    /// The commits, by their id.
    pub commits: Map<Seq<char>, Commit>,
    /// The refs of the snapshots.
    pub refs: Refs,
    /// The commits that a restore holds.
    pub pins: Set<Seq<char>>,
}

/// Whether refs come by descending name, each name once.
pub open spec fn in_order(refs: Refs) -> bool {
    forall|i: int, j: int|
        0 <= i < j < refs.len() ==> text::text_before((#[trigger] refs[j]).0, (#[trigger] refs[i]).0)
}

/// Whether a commit is among the snapshots that are listed.
pub open spec fn listed(s: Store, c: Seq<char>) -> bool {
    exists|i: int| 0 <= i < s.refs.len() && (#[trigger] s.refs[i]).1 == c
}

/// Whether something refers to a commit.
pub open spec fn held(s: Store, c: Seq<char>) -> bool {
    s.pins.contains(c) || exists|i: int| 0 <= i < s.refs.len() && (#[trigger] s.refs[i]).1 == c
}

/// Whether a store is sound: its refs are in order, what something refers to is there, and no
/// id is empty.
pub open spec fn sound(s: Store) -> bool {
    &&& in_order(s.refs)
    &&& forall|c: Seq<char>| #[trigger] held(s, c) ==> c.len() > 0 && s.commits.dom().contains(c)
}

/// Whether commits are some of others, with the same content.
pub open spec fn some_of(a: Map<Seq<char>, Commit>, b: Map<Seq<char>, Commit>) -> bool {
    forall|c: Seq<char>| #[trigger]
        a.dom().contains(c) ==> b.dom().contains(c) && a[c] == b[c]
}

/// Refs without those of some names.
pub open spec fn minus(refs: Refs, gone: Seq<Seq<char>>) -> Refs
    decreases refs.len(),
{
    if refs.len() == 0 {
        Seq::empty()
    } else if gone.contains(refs.last().0) {
        minus(refs.drop_last(), gone)
    } else {
        minus(refs.drop_last(), gone).push(refs.last())
    }
}

/// Refs with one more, at its place; it stands for one of the same name.
pub open spec fn put_ref(refs: Refs, name: Seq<char>, commit: Seq<char>) -> Refs
    decreases refs.len(),
{
    if refs.len() == 0 || text::text_before(refs[0].0, name) {
        seq![(name, commit)] + refs
    } else if refs[0].0 == name {
        seq![(name, commit)] + refs.drop_first()
    } else {
        seq![refs[0]] + put_ref(refs.drop_first(), name, commit)
    }
}

/// Whether the files are as the newest snapshot recorded them.
pub open spec fn unchanged(s: Store) -> bool {
    s.refs.len() > 0 && s.commits[s.refs[0].1].tree == s.files
}

/// Whether a name is that of a snapshot of an earlier time, or of an earlier number at the same.
pub open spec fn taken_before(name: Seq<char>, now: nat, seq: nat) -> bool {
    exists|m: nat, n: nat, c: Seq<char>|
        name == #[trigger] snapshot::ref_view(m, n, c) && n < snapshot::pow10(6) && (m < now || m
            == now && n < seq)
}

proof fn lemma_taken_before(name: Seq<char>, now: nat, seq: nat, id: Seq<char>)
    requires
        taken_before(name, now, seq),
        now < snapshot::pow10(16),
        seq < snapshot::pow10(6),
    ensures
        text::text_before(name, snapshot::ref_view(now, seq, id)),
{
    let (m, n, c) = choose|m: nat, n: nat, c: Seq<char>|
        name == #[trigger] snapshot::ref_view(m, n, c) && n < snapshot::pow10(6) && (m < now || m
            == now && n < seq);
    snapshot::refs_sort_by_time(m, n, c, now, seq, id);
}

/// Whether a reply is what git gives at a stage in the taking of a snapshot, and leaves the store
/// `b`: it stages, writes, lists and deletes as it is asked, it knows no commit that is not there,
/// and a commit has one content. The clock does not go back, and fits the names of snapshots.
pub open spec fn served(
    t: TermsView,
    s: TakeView,
    a: Store,
    reply: Result<Seq<char>, Seq<char>>,
    now: nat,
    b: Store,
) -> bool {
    &&& !(s is Comparing) ==> reply is Ok
    &&& match s {
        TakeView::Staging => b == (Store { staged: a.files, ..a }),
        TakeView::Looking { .. } => b == a && text::trim_view(reply->Ok_0) == (if a.refs.len()
            == 0 {
            Seq::empty()
        } else {
            a.refs[0].1
        }),
        TakeView::Comparing { tree, newest } => b == a && match reply {
            Ok(out) => a.commits.dom().contains(newest) && (text::trim_view(out) == tree
                <==> a.commits[newest].tree == a.staged),
            Err(_) => !a.commits.dom().contains(newest),
        },
        TakeView::Committing { .. } => {
            let id = text::trim_view(reply->Ok_0);
            let commit = Commit { tree: a.staged, label: t.label };
            &&& id.len() > 0
            &&& a.commits.dom().contains(id) ==> a.commits[id] == commit
            &&& now < snapshot::pow10(16) && t.seq < snapshot::pow10(6)
            &&& forall|i: int|
                0 <= i < a.refs.len() && a.commits.dom().contains((#[trigger] a.refs[i]).1)
                    ==> taken_before(a.refs[i].0, now, t.seq)
            &&& b == (Store { commits: a.commits.insert(id, commit), ..a })
        },
        TakeView::Recording { commit, name } => b == (Store {
            refs: put_ref(a.refs, name, commit),
            ..a
        }),
        TakeView::Listing { .. } => b == a && snapshot::refs_view(reply->Ok_0) == a.refs,
        TakeView::Sparing { .. } => b == a && forall|c: Seq<char>| #[trigger]
            snapshot::pins_view(reply->Ok_0).contains(c) <==> a.pins.contains(c),
        TakeView::Deleting { stale, .. } => b == (Store {
            refs: minus(a.refs, seq![stale[0]]),
            ..a
        }),
        TakeView::Reclaiming { .. } => {
            &&& b == (Store { commits: b.commits, ..a })
            &&& some_of(b.commits, a.commits)
            &&& forall|c: Seq<char>| #[trigger] held(a, c) ==> b.commits.dom().contains(c)
        },
        _ => b == a,
    }
}

/// The refs among the first `n` that pruning leaves: the `keep` newest ones, and those whose
/// commit a restore holds.
pub open spec fn pruned_to(full: Refs, keep: int, pins: Set<Seq<char>>, n: int) -> Refs
    decreases n,
{
    if n <= 0 {
        Seq::empty()
    } else if n <= keep || pins.contains(full[n - 1].1) {
        pruned_to(full, keep, pins, n - 1).push(full[n - 1])
    } else {
        pruned_to(full, keep, pins, n - 1)
    }
}

/// The refs that pruning leaves.
pub open spec fn pruned(full: Refs, keep: int, pins: Set<Seq<char>>) -> Refs {
    pruned_to(full, keep, pins, full.len() as int)
}

/// A store with the commit of its files.
pub open spec fn noted(start: Store, label: Seq<char>, id: Seq<char>) -> Store {
    Store {
        staged: start.files,
        commits: start.commits.insert(id, Commit { tree: start.files, label }),
        ..start
    }
}

/// Whether a commit may be added: its id is not empty, and it is not there with another content.
pub open spec fn addable(start: Store, label: Seq<char>, id: Seq<char>) -> bool {
    &&& id.len() > 0
    &&& start.commits.dom().contains(id) ==> start.commits[id] == (Commit { tree: start.files, label })
}

/// Whether refs are those of a store with one more, the newest, for a commit.
pub open spec fn is_fresh(start: Store, id: Seq<char>, full: Refs) -> bool {
    &&& full.len() == start.refs.len() + 1
    &&& full[0].1 == id
    &&& full.drop_first() == start.refs
    &&& in_order(full)
}

/// Whether a store is what the taking of a snapshot makes of `start`: the same where the files
/// are as the newest snapshot recorded them; else a new snapshot is the newest, and the others
/// are pruned.
pub open spec fn ended(t: TermsView, start: Store, id: Seq<char>, end: Store) -> bool {
    if unchanged(start) {
        id == start.refs[0].1 && end == (Store { staged: start.files, ..start })
    } else {
        &&& addable(start, t.label, id)
        &&& exists|full: Refs|
            #[trigger] is_fresh(start, id, full) && end.refs == pruned(
                full,
                t.keep_last,
                start.pins,
            )
        &&& end == (Store {
            refs: end.refs,
            commits: end.commits,
            ..noted(start, t.label, id)
        })
        &&& some_of(end.commits, noted(start, t.label, id).commits)
        &&& forall|c: Seq<char>| #[trigger] held(end, c) ==> end.commits.dom().contains(c)
    }
}

/// What stands between the refs of a store and those that are left once some of the stale ones
/// are deleted.
spec fn deleting(
    t: TermsView,
    start: Store,
    id: Seq<char>,
    stale: Seq<Seq<char>>,
    full: Refs,
    gone: Seq<Seq<char>>,
    pinned: Seq<Seq<char>>,
    cur: Store,
) -> bool {
    &&& is_fresh(start, id, full)
    &&& forall|c: Seq<char>| #[trigger] pinned.contains(c) <==> start.pins.contains(c)
    &&& gone + stale == snapshot::stale_from(full, t.keep_last, pinned, full.len() as int)
    &&& cur == (Store { refs: minus(full, gone), ..noted(start, t.label, id) })
}

/// Whether a store is on its way at a stage in the taking of a snapshot that began with `start`.
spec fn on_way(t: TermsView, start: Store, s: TakeView, cur: Store) -> bool {
    let staged = Store { staged: start.files, ..start };
    match s {
        TakeView::Preparing => cur == start,
        TakeView::Staging => cur == start,
        TakeView::Writing => cur == staged,
        TakeView::Scanning { .. } => cur == staged,
        TakeView::Looking { .. } => cur == staged,
        TakeView::Comparing { newest, .. } => cur == staged && start.refs.len() > 0 && newest
            == start.refs[0].1,
        TakeView::Committing { .. } => cur == staged && !unchanged(start),
        TakeView::Recording { commit, name } => {
            &&& !unchanged(start)
            &&& addable(start, t.label, commit)
            &&& start.refs.len() > 0 ==> text::text_before(start.refs[0].0, name)
            &&& cur == noted(start, t.label, commit)
        },
        TakeView::Listing { commit } => {
            &&& !unchanged(start)
            &&& addable(start, t.label, commit)
            &&& is_fresh(start, commit, cur.refs)
            &&& cur == (Store { refs: cur.refs, ..noted(start, t.label, commit) })
        },
        TakeView::Sparing { commit, refs } => {
            &&& !unchanged(start)
            &&& addable(start, t.label, commit)
            &&& is_fresh(start, commit, refs)
            &&& cur == (Store { refs, ..noted(start, t.label, commit) })
        },
        TakeView::Deleting { commit, stale } => {
            &&& !unchanged(start)
            &&& addable(start, t.label, commit)
            &&& stale.len() > 0
            &&& exists|full: Refs, gone: Seq<Seq<char>>, pinned: Seq<Seq<char>>| #[trigger]
                deleting(t, start, commit, stale, full, gone, pinned, cur)
        },
        TakeView::Reclaiming { commit } => {
            &&& !unchanged(start)
            &&& addable(start, t.label, commit)
            &&& exists|full: Refs, gone: Seq<Seq<char>>, pinned: Seq<Seq<char>>| #[trigger]
                deleting(t, start, commit, Seq::empty(), full, gone, pinned, cur)
        },
        TakeView::Done(r) => r matches Ok(id) && ended(t, start, id, cur),
    }
}

proof fn lemma_minus_more(refs: Refs, gone: Seq<Seq<char>>, name: Seq<char>)
    ensures
        minus(minus(refs, gone), seq![name]) == minus(refs, gone.push(name)),
    decreases refs.len(),
{
    let one = seq![name];
    assert(one[0] == name);
    if refs.len() > 0 {
        let last = refs.last();
        let before = minus(refs.drop_last(), gone);
        lemma_minus_more(refs.drop_last(), gone, name);
        assert(gone.push(name).contains(last.0) <==> gone.contains(last.0) || last.0 == name) by {
            if gone.contains(last.0) {
                let i = choose|i: int| 0 <= i < gone.len() && gone[i] == last.0;
                assert(gone.push(name)[i] == last.0);
            }
            assert(gone.push(name)[gone.len() as int] == name);
        }
        assert(one.contains(last.0) <==> last.0 == name) by {
            assert(one[0] == name);
        }
        if !gone.contains(last.0) {
            assert(before.push(last).drop_last() =~= before);
            assert(before.push(last).last() == last);
        }
    }
}

proof fn lemma_minus_none(refs: Refs)
    ensures
        minus(refs, Seq::empty()) == refs,
    decreases refs.len(),
{
    if refs.len() > 0 {
        lemma_minus_none(refs.drop_last());
        assert(refs.drop_last().push(refs.last()) =~= refs);
    } else {
        assert(refs =~= Seq::empty());
    }
}

proof fn lemma_pruned(
    full: Refs,
    keep: int,
    pinned: Seq<Seq<char>>,
    pins: Set<Seq<char>>,
    n: int,
)
    requires
        in_order(full),
        keep >= 0,
        0 <= n <= full.len(),
        forall|c: Seq<char>| #[trigger] pinned.contains(c) <==> pins.contains(c),
    ensures
        minus(full.take(n), snapshot::stale_from(full, keep, pinned, full.len() as int))
            == pruned_to(full, keep, pins, n),
    decreases n,
{
    let stale = snapshot::stale_from(full, keep, pinned, full.len() as int);
    if n > 0 {
        lemma_pruned(full, keep, pinned, pins, n - 1);
        let part = full.take(n);
        assert(part.drop_last() =~= full.take(n - 1));
        assert(part.last() == full[n - 1]);
        let name = full[n - 1].0;
        snapshot::lemma_stale(full, keep, pinned, full.len() as int, name);
        assert(stale.contains(name) <==> n > keep && !pins.contains(full[n - 1].1)) by {
            if stale.contains(name) {
                let i = choose|i: int|
                    keep <= i < full.len() && (#[trigger] full[i]).0 == name && !pinned.contains(
                        full[i].1,
                    );
                text::lemma_text_before_total(name, name);
                if i < n - 1 {
                    assert(text::text_before(full[n - 1].0, full[i].0));
                } else if i > n - 1 {
                    assert(text::text_before(full[i].0, full[n - 1].0));
                }
            } else if n > keep && !pins.contains(full[n - 1].1) {
                assert(keep <= n - 1 < full.len() && full[n - 1].0 == name);
            }
        }
    }
}

proof fn lemma_all_kept(full: Refs, keep: int, pins: Set<Seq<char>>, n: int)
    requires
        0 <= n <= full.len(),
        n <= keep,
    ensures
        pruned_to(full, keep, pins, n) == full.take(n),
    decreases n,
{
    if n > 0 {
        lemma_all_kept(full, keep, pins, n - 1);
        assert(full.take(n - 1).push(full[n - 1]) =~= full.take(n));
    } else {
        assert(full.take(0) =~= Seq::empty());
    }
}

proof fn lemma_newest_first(start: Store, name: Seq<char>, id: Seq<char>)
    requires
        in_order(start.refs),
        start.refs.len() > 0 ==> text::text_before(start.refs[0].0, name),
    ensures
        is_fresh(start, id, put_ref(start.refs, name, id)),
{
    let full = put_ref(start.refs, name, id);
    assert(full.drop_first() =~= start.refs);
    assert forall|i: int, j: int| 0 <= i < j < full.len() implies text::text_before(
        (#[trigger] full[j]).0,
        (#[trigger] full[i]).0,
    ) by {
        assert(full[j] == start.refs[j - 1]);
        if i > 0 {
            assert(full[i] == start.refs[i - 1]);
        } else if j > 1 {
            assert(text::text_before(start.refs[j - 1].0, start.refs[0].0));
            text::lemma_text_before_chain(start.refs[j - 1].0, start.refs[0].0, name);
        }
    }
}

proof fn lemma_pruned_from(full: Refs, keep: int, pins: Set<Seq<char>>, n: int, i: int) -> (k: int)
    requires
        0 <= n <= full.len(),
        0 <= i < pruned_to(full, keep, pins, n).len(),
    ensures
        0 <= k < n,
        pruned_to(full, keep, pins, n)[i] == full[k],
    decreases n,
{
    let before = pruned_to(full, keep, pins, n - 1);
    if i < before.len() {
        lemma_pruned_from(full, keep, pins, n - 1, i)
    } else {
        n - 1
    }
}

proof fn lemma_pruned_first(full: Refs, keep: int, pins: Set<Seq<char>>, n: int)
    requires
        0 < n <= full.len(),
        keep >= 1,
    ensures
        pruned_to(full, keep, pins, n).len() > 0,
        pruned_to(full, keep, pins, n)[0] == full[0],
    decreases n,
{
    if n > 1 {
        lemma_pruned_first(full, keep, pins, n - 1);
    } else {
        reveal_with_fuel(pruned_to, 2);
    }
}

proof fn lemma_pruned_order(full: Refs, keep: int, pins: Set<Seq<char>>, n: int)
    requires
        0 <= n <= full.len(),
        in_order(full),
    ensures
        in_order(pruned_to(full, keep, pins, n)),
    decreases n,
{
    if n > 0 {
        lemma_pruned_order(full, keep, pins, n - 1);
        let before = pruned_to(full, keep, pins, n - 1);
        let all = pruned_to(full, keep, pins, n);
        assert forall|i: int, j: int| 0 <= i < j < all.len() implies text::text_before(
            (#[trigger] all[j]).0,
            (#[trigger] all[i]).0,
        ) by {
            if j < before.len() {
                assert(all[j] == before[j] && all[i] == before[i]);
            } else {
                let k = lemma_pruned_from(full, keep, pins, n - 1, i);
                assert(all[i] == full[k]);
                assert(all[j] == full[n - 1]);
            }
        }
    }
}

/// What a snapshot that was just recorded and pruned leaves is what it should be.
proof fn lemma_ended(t: TermsView, start: Store, id: Seq<char>, full: Refs, end: Store)
    requires
        sound(start),
        !unchanged(start),
        addable(start, t.label, id),
        is_fresh(start, id, full),
        end.refs == pruned(full, t.keep_last, start.pins),
        end == (Store { refs: end.refs, commits: end.commits, ..noted(start, t.label, id) }),
        some_of(end.commits, noted(start, t.label, id).commits),
        end.commits == noted(start, t.label, id).commits || forall|c: Seq<char>| #[trigger]
            held(end, c) ==> end.commits.dom().contains(c),
    ensures
        ended(t, start, id, end),
{
    assert forall|c: Seq<char>| #[trigger] held(end, c) implies end.commits.dom().contains(c) by {
        if end.commits == noted(start, t.label, id).commits {
            if start.pins.contains(c) {
                assert(held(start, c));
            } else {
                let i = choose|i: int| 0 <= i < end.refs.len() && (#[trigger] end.refs[i]).1 == c;
                let k = lemma_pruned_from(
                    full,
                    t.keep_last,
                    start.pins,
                    full.len() as int,
                    i,
                );
                if k > 0 {
                    assert(full.drop_first()[k - 1] == full[k]);
                    assert(start.refs[k - 1].1 == c);
                    assert(held(start, c));
                }
            }
        }
    }
}

proof fn lemma_step(
    t: TermsView,
    start: Store,
    s: TakeView,
    a: Store,
    reply: Result<Seq<char>, Seq<char>>,
    now: nat,
    b: Store,
)
    requires
        sound(start),
        t.keep_last >= 0,
        on_way(t, start, s, a),
        served(t, s, a, reply, now, b),
    ensures
        on_way(t, start, snapshot_manager::take_next(t, s, reply, now), b),
{
    let next = snapshot_manager::take_next(t, s, reply, now);
    match s {
        TakeView::Looking { .. } => {
            let out = text::trim_view(reply->Ok_0);
            if start.refs.len() > 0 {
                assert(out == start.refs[0].1);
                assert(held(start, out));
                assert(out.len() > 0);
            } else {
                assert(out.len() == 0);
            }
            assert(b == a);
        },
        TakeView::Comparing { newest, .. } => {
            assert(held(start, newest)) by {
                assert(start.refs[0].1 == newest);
            }
        },
        TakeView::Committing { .. } => {
            if start.refs.len() > 0 {
                assert(held(start, start.refs[0].1));
                assert(a.refs[0].1 == start.refs[0].1);
                lemma_taken_before(a.refs[0].0, now, t.seq, text::trim_view(reply->Ok_0));
            }
        },
        TakeView::Recording { commit, name } => {
            lemma_newest_first(start, name, commit);
        },
        TakeView::Listing { commit } => {
            if next is Done {
                lemma_all_kept(a.refs, t.keep_last, start.pins, a.refs.len() as int);
                assert(a.refs.take(a.refs.len() as int) =~= a.refs);
                lemma_ended(t, start, commit, a.refs, b);
            }
        },
        TakeView::Sparing { commit, refs } => {
            let pinned = snapshot::pins_view(reply->Ok_0);
            let none = Seq::<Seq<char>>::empty();
            let stale = snapshot::stale_from(refs, t.keep_last, pinned, refs.len() as int);
            lemma_minus_none(refs);
            assert(none + stale =~= stale);
            if stale.len() == 0 {
                assert(stale =~= none);
            }
            assert(deleting(t, start, commit, stale, refs, none, pinned, b));
        },
        TakeView::Deleting { commit, stale } => {
            let (full, gone, pinned) = choose|
                full: Refs,
                gone: Seq<Seq<char>>,
                pinned: Seq<Seq<char>>,
            | #[trigger] deleting(t, start, commit, stale, full, gone, pinned, a);
            let more = gone.push(stale[0]);
            lemma_minus_more(full, gone, stale[0]);
            let left = stale.drop_first();
            assert(more + left =~= gone + stale);
            if stale.len() == 1 {
                assert(left =~= Seq::<Seq<char>>::empty());
            }
            assert(deleting(t, start, commit, left, full, more, pinned, b));
        },
        TakeView::Reclaiming { commit } => {
            let none = Seq::<Seq<char>>::empty();
            let (full, gone, pinned) = choose|
                full: Refs,
                gone: Seq<Seq<char>>,
                pinned: Seq<Seq<char>>,
            | #[trigger] deleting(t, start, commit, none, full, gone, pinned, a);
            assert(gone + none =~= gone);
            assert(full.take(full.len() as int) =~= full);
            lemma_pruned(full, t.keep_last, pinned, start.pins, full.len() as int);
            assert forall|c: Seq<char>| #[trigger] held(b, c) implies b.commits.dom().contains(
                c,
            ) by {
                assert(held(a, c));
            }
            lemma_ended(t, start, commit, full, b);
        },
        _ => {},
    }
}

/// Whether none of the names is that of a ref whose commit a restore holds.
spec fn spares(names: Seq<Seq<char>>, s: Store) -> bool {
    forall|i: int, k: int|
        0 <= i < s.refs.len() && 0 <= k < names.len() && s.pins.contains((#[trigger] s.refs[i]).1)
            ==> #[trigger] names[k] != s.refs[i].0
}

/// Whether a store holds what a restore pins of `start`, with the same files.
spec fn holds_pinned(start: Store, cur: Store) -> bool {
    &&& cur.files == start.files
    &&& cur.pins == start.pins
    &&& in_order(cur.refs)
    &&& forall|c: Seq<char>| #[trigger]
        start.pins.contains(c) && start.commits.dom().contains(c) ==> {
            &&& cur.commits.dom().contains(c)
            &&& cur.commits[c] == start.commits[c]
            &&& listed(start, c) ==> listed(cur, c)
        }
}

/// Whether the taking of a snapshot, whatever the store, is at a stage with what is pinned held.
spec fn calm(start: Store, s: TakeView, cur: Store) -> bool {
    &&& holds_pinned(start, cur)
    &&& match s {
        TakeView::Recording { name, .. } => forall|i: int|
            0 <= i < cur.refs.len() && start.commits.dom().contains((#[trigger] cur.refs[i]).1)
                && cur.pins.contains(cur.refs[i].1) ==> cur.refs[i].0 != name,
        TakeView::Sparing { refs, .. } => refs == cur.refs,
        TakeView::Deleting { stale, .. } => stale.len() > 0 && spares(stale, cur),
        TakeView::Done(r) => r is Ok,
        _ => true,
    }
}

proof fn lemma_put_order(refs: Refs, name: Seq<char>, commit: Seq<char>)
    requires
        in_order(refs),
    ensures
        in_order(put_ref(refs, name, commit)),
        forall|i: int|
            0 <= i < put_ref(refs, name, commit).len() ==> {
                let r = #[trigger] put_ref(refs, name, commit)[i];
                r == (name, commit) || exists|k: int| 0 <= k < refs.len() && #[trigger] refs[k] == r
            },
    decreases refs.len(),
{
    let all = put_ref(refs, name, commit);
    if refs.len() == 0 || text::text_before(refs[0].0, name) {
        assert forall|i: int, j: int| 0 <= i < j < all.len() implies text::text_before(
            (#[trigger] all[j]).0,
            (#[trigger] all[i]).0,
        ) by {
            assert(all[j] == refs[j - 1]);
            if i > 0 {
                assert(all[i] == refs[i - 1]);
            } else if j > 1 {
                assert(text::text_before(refs[j - 1].0, refs[0].0));
                text::lemma_text_before_chain(refs[j - 1].0, refs[0].0, name);
            }
        }
        assert forall|i: int| 0 <= i < all.len() implies {
            let r = #[trigger] all[i];
            r == (name, commit) || exists|k: int| 0 <= k < refs.len() && #[trigger] refs[k] == r
        } by {
            if i > 0 {
                assert(refs[i - 1] == all[i]);
            }
        }
    } else if refs[0].0 == name {
        assert forall|i: int, j: int| 0 <= i < j < all.len() implies text::text_before(
            (#[trigger] all[j]).0,
            (#[trigger] all[i]).0,
        ) by {
            assert(all[j] == refs[j]);
            assert(all[i].0 == refs[i].0);
        }
        assert forall|i: int| 0 <= i < all.len() implies {
            let r = #[trigger] all[i];
            r == (name, commit) || exists|k: int| 0 <= k < refs.len() && #[trigger] refs[k] == r
        } by {
            if i > 0 {
                assert(refs[i] == all[i]);
            }
        }
    } else {
        let rest = refs.drop_first();
        assert(in_order(rest)) by {
            assert forall|i: int, j: int| 0 <= i < j < rest.len() implies text::text_before(
                (#[trigger] rest[j]).0,
                (#[trigger] rest[i]).0,
            ) by {
                assert(rest[j] == refs[j + 1] && rest[i] == refs[i + 1]);
            }
        }
        lemma_put_order(rest, name, commit);
        let tail = put_ref(rest, name, commit);
        text::lemma_text_before_total(name, refs[0].0);
        assert forall|i: int, j: int| 0 <= i < j < all.len() implies text::text_before(
            (#[trigger] all[j]).0,
            (#[trigger] all[i]).0,
        ) by {
            assert(all[j] == tail[j - 1]);
            if i > 0 {
                assert(all[i] == tail[i - 1]);
            } else if tail[j - 1] != (name, commit) {
                let k = choose|k: int| 0 <= k < rest.len() && #[trigger] rest[k] == tail[j - 1];
                assert(refs[k + 1] == tail[j - 1]);
                assert(text::text_before(refs[k + 1].0, refs[0].0));
            }
        }
        assert forall|i: int| 0 <= i < all.len() implies {
            let r = #[trigger] all[i];
            r == (name, commit) || exists|k: int| 0 <= k < refs.len() && #[trigger] refs[k] == r
        } by {
            if i > 0 {
                assert(all[i] == tail[i - 1]);
                if tail[i - 1] != (name, commit) {
                    let k = choose|k: int| 0 <= k < rest.len() && #[trigger] rest[k] == tail[i - 1];
                    assert(refs[k + 1] == all[i]);
                }
            } else {
                assert(refs[0] == all[0]);
            }
        }
    }
}

proof fn lemma_put_keeps(refs: Refs, name: Seq<char>, commit: Seq<char>, k: int)
    requires
        0 <= k < refs.len(),
        refs[k].0 != name,
    ensures
        exists|i: int|
            0 <= i < put_ref(refs, name, commit).len() && #[trigger] put_ref(refs, name, commit)[i]
                == refs[k],
    decreases refs.len(),
{
    let all = put_ref(refs, name, commit);
    if text::text_before(refs[0].0, name) {
        assert(all[k + 1] == refs[k]);
    } else if refs[0].0 == name {
        assert(all[k] == refs[k]);
    } else if k == 0 {
        assert(all[0] == refs[0]);
    } else {
        let rest = refs.drop_first();
        lemma_put_keeps(rest, name, commit, k - 1);
        let tail = put_ref(rest, name, commit);
        let i = choose|i: int| 0 <= i < tail.len() && #[trigger] tail[i] == rest[k - 1];
        assert(all[i + 1] == refs[k]);
    }
}

proof fn lemma_minus_keeps(refs: Refs, gone: Seq<Seq<char>>, k: int)
    requires
        0 <= k < refs.len(),
        !gone.contains(refs[k].0),
    ensures
        exists|i: int| 0 <= i < minus(refs, gone).len() && #[trigger] minus(refs, gone)[i] == refs[k],
    decreases refs.len(),
{
    let all = minus(refs, gone);
    let before = minus(refs.drop_last(), gone);
    if k == refs.len() - 1 {
        assert(all[before.len() as int] == refs[k]);
    } else {
        lemma_minus_keeps(refs.drop_last(), gone, k);
        let i = choose|i: int| 0 <= i < before.len() && #[trigger] before[i] == refs.drop_last()[k];
        assert(all[i] == refs[k]);
    }
}

proof fn lemma_minus_from(refs: Refs, gone: Seq<Seq<char>>, i: int) -> (k: int)
    requires
        0 <= i < minus(refs, gone).len(),
    ensures
        0 <= k < refs.len(),
        i <= k,
        minus(refs, gone)[i] == refs[k],
    decreases refs.len(),
{
    let before = minus(refs.drop_last(), gone);
    lemma_minus_len(refs.drop_last(), gone);
    if i < before.len() {
        lemma_minus_from(refs.drop_last(), gone, i)
    } else {
        refs.len() - 1
    }
}

proof fn lemma_minus_len(refs: Refs, gone: Seq<Seq<char>>)
    ensures
        minus(refs, gone).len() <= refs.len(),
    decreases refs.len(),
{
    if refs.len() > 0 {
        lemma_minus_len(refs.drop_last(), gone);
    }
}

proof fn lemma_minus_order(refs: Refs, gone: Seq<Seq<char>>)
    requires
        in_order(refs),
    ensures
        in_order(minus(refs, gone)),
    decreases refs.len(),
{
    if refs.len() > 0 {
        let front = refs.drop_last();
        assert(in_order(front)) by {
            assert forall|i: int, j: int| 0 <= i < j < front.len() implies text::text_before(
                (#[trigger] front[j]).0,
                (#[trigger] front[i]).0,
            ) by {
                assert(front[j] == refs[j] && front[i] == refs[i]);
            }
        }
        lemma_minus_order(front, gone);
        let before = minus(front, gone);
        let all = minus(refs, gone);
        assert forall|i: int, j: int| 0 <= i < j < all.len() implies text::text_before(
            (#[trigger] all[j]).0,
            (#[trigger] all[i]).0,
        ) by {
            if j < before.len() {
                assert(all[j] == before[j] && all[i] == before[i]);
            } else {
                let k = lemma_minus_from(front, gone, i);
                assert(all[i] == refs[k]);
                assert(all[j] == refs[refs.len() - 1]);
            }
        }
    }
}

proof fn lemma_calm_step(
    t: TermsView,
    start: Store,
    s: TakeView,
    a: Store,
    reply: Result<Seq<char>, Seq<char>>,
    now: nat,
    b: Store,
)
    requires
        t.keep_last >= 0,
        calm(start, s, a),
        served(t, s, a, reply, now, b),
    ensures
        calm(start, snapshot_manager::take_next(t, s, reply, now), b),
{
    match s {
        TakeView::Committing { .. } => {
            let id = text::trim_view(reply->Ok_0);
            let name = snapshot::ref_view(now, t.seq, id);
            assert forall|i: int|
                0 <= i < b.refs.len() && start.commits.dom().contains((#[trigger] b.refs[i]).1)
                    && b.pins.contains(b.refs[i].1) implies b.refs[i].0 != name by {
                let c = b.refs[i].1;
                assert(start.pins.contains(c) && start.commits.dom().contains(c));
                assert(a.commits.dom().contains(a.refs[i].1));
                lemma_taken_before(a.refs[i].0, now, t.seq, id);
                text::lemma_text_before_total(a.refs[i].0, name);
            }
            assert forall|c: Seq<char>| #[trigger]
                start.pins.contains(c) && start.commits.dom().contains(c) && listed(
                    start,
                    c,
                ) implies listed(b, c) by {
                let k = choose|k: int| 0 <= k < a.refs.len() && (#[trigger] a.refs[k]).1 == c;
                assert(b.refs[k].1 == c);
            }
        },
        TakeView::Recording { commit, name } => {
            lemma_put_order(a.refs, name, commit);
            assert forall|c: Seq<char>| #[trigger]
                start.pins.contains(c) && start.commits.dom().contains(c) && listed(
                    start,
                    c,
                ) implies listed(b, c) by {
                let k = choose|k: int| 0 <= k < a.refs.len() && (#[trigger] a.refs[k]).1 == c;
                assert(a.refs[k].0 != name);
                lemma_put_keeps(a.refs, name, commit, k);
                let i = choose|i: int| 0 <= i < b.refs.len() && #[trigger] b.refs[i] == a.refs[k];
                assert(b.refs[i].1 == c);
            }
        },
        TakeView::Sparing { refs, .. } => {
            let pinned = snapshot::pins_view(reply->Ok_0);
            let n = refs.len() as int;
            let stale = snapshot::stale_from(refs, t.keep_last, pinned, n);
            assert forall|i: int, k: int|
                0 <= i < b.refs.len() && 0 <= k < stale.len() && b.pins.contains(
                    (#[trigger] b.refs[i]).1,
                ) implies #[trigger] stale[k] != b.refs[i].0 by {
                snapshot::lemma_stale(refs, t.keep_last, pinned, n, stale[k]);
                assert(stale.contains(stale[k]));
                let j = choose|j: int|
                    t.keep_last <= j < n && (#[trigger] refs[j]).0 == stale[k] && !pinned.contains(
                        refs[j].1,
                    );
                text::lemma_text_before_total(refs[j].0, refs[j].0);
                if refs[i].0 == refs[j].0 && i < j {
                    assert(text::text_before(refs[j].0, refs[i].0));
                } else if refs[i].0 == refs[j].0 && j < i {
                    assert(text::text_before(refs[i].0, refs[j].0));
                }
            }
        },
        TakeView::Deleting { stale, .. } => {
            let one = seq![stale[0]];
            lemma_minus_order(a.refs, one);
            assert forall|c: Seq<char>| #[trigger]
                start.pins.contains(c) && start.commits.dom().contains(c) && listed(
                    start,
                    c,
                ) implies listed(b, c) by {
                let k = choose|k: int| 0 <= k < a.refs.len() && (#[trigger] a.refs[k]).1 == c;
                assert(stale[0] != a.refs[k].0);
                assert(!one.contains(a.refs[k].0));
                lemma_minus_keeps(a.refs, one, k);
                let i = choose|i: int| 0 <= i < b.refs.len() && #[trigger] b.refs[i] == a.refs[k];
                assert(b.refs[i].1 == c);
            }
            if stale.len() > 1 {
                let left = stale.drop_first();
                assert forall|i: int, k: int|
                    0 <= i < b.refs.len() && 0 <= k < left.len() && b.pins.contains(
                        (#[trigger] b.refs[i]).1,
                    ) implies #[trigger] left[k] != b.refs[i].0 by {
                    let j = lemma_minus_from(a.refs, one, i);
                    assert(left[k] == stale[k + 1]);
                    assert(a.refs[j] == b.refs[i]);
                    assert(a.pins.contains(a.refs[j].1));
                }
            }
        },
        TakeView::Reclaiming { .. } => {
            assert forall|c: Seq<char>| #[trigger]
                start.pins.contains(c) && start.commits.dom().contains(c) implies
                b.commits.dom().contains(c) && b.commits[c] == start.commits[c] && (listed(
                    start,
                    c,
                ) ==> listed(b, c)) by {
                assert(held(a, c));
                if listed(start, c) {
                    let k = choose|k: int| 0 <= k < a.refs.len() && (#[trigger] a.refs[k]).1 == c;
                    assert(b.refs[k].1 == c);
                }
            }
        },
        _ => {
            assert forall|c: Seq<char>| #[trigger]
                start.pins.contains(c) && start.commits.dom().contains(c) && listed(
                    start,
                    c,
                ) implies listed(b, c) by {
                let k = choose|k: int| 0 <= k < a.refs.len() && (#[trigger] a.refs[k]).1 == c;
                assert(b.refs[k].1 == c);
            }
        },
    }
}

/// A step: what came back, when, and the store after it.
pub struct Step {
    pub reply: Result<Seq<char>, Seq<char>>,
    pub now: nat,
    pub next: Store,
}

/// Whether the taking of a snapshot comes by these steps from a stage with the store `a` to the
/// stage `e` with the store `b`.
pub open spec fn takes(
    t: TermsView,
    s: TakeView,
    a: Store,
    steps: Seq<Step>,
    e: TakeView,
    b: Store,
) -> bool
    decreases steps.len(),
{
    if steps.len() == 0 {
        e == s && b == a
    } else {
        let x = steps[0];
        &&& served(t, s, a, x.reply, x.now, x.next)
        &&& takes(
            t,
            snapshot_manager::take_next(t, s, x.reply, x.now),
            x.next,
            steps.drop_first(),
            e,
            b,
        )
    }
}

proof fn lemma_way(
    t: TermsView,
    start: Store,
    s: TakeView,
    a: Store,
    steps: Seq<Step>,
    e: TakeView,
    b: Store,
)
    requires
        sound(start),
        t.keep_last >= 0,
        on_way(t, start, s, a),
        takes(t, s, a, steps, e, b),
    ensures
        on_way(t, start, e, b),
    decreases steps.len(),
{
    if steps.len() > 0 {
        let x = steps[0];
        lemma_step(t, start, s, a, x.reply, x.now, x.next);
        lemma_way(
            t,
            start,
            snapshot_manager::take_next(t, s, x.reply, x.now),
            x.next,
            steps.drop_first(),
            e,
            b,
        );
    }
}

/// What holds of a store that the taking of a snapshot leaves.
proof fn lemma_after(t: TermsView, start: Store, id: Seq<char>, end: Store)
    requires
        sound(start),
        t.keep_last >= 1,
        ended(t, start, id, end),
    ensures
        sound(end),
        end.files == start.files,
        end.pins == start.pins,
        end.refs.len() > 0,
        end.refs[0].1 == id,
        end.commits[id].tree == start.files,
        forall|c: Seq<char>| #[trigger]
            held(end, c) && start.commits.dom().contains(c) ==> end.commits[c] == start.commits[c],
{
    if !unchanged(start) {
        let full = choose|full: Refs|
            #[trigger] is_fresh(start, id, full) && end.refs == pruned(
                full,
                t.keep_last,
                start.pins,
            );
        let n = full.len() as int;
        lemma_pruned_first(full, t.keep_last, start.pins, n);
        lemma_pruned_order(full, t.keep_last, start.pins, n);
        assert(end.refs[0].1 == id);
        assert(held(end, id));
        assert forall|c: Seq<char>| #[trigger] held(end, c) implies c.len() > 0
            && end.commits.dom().contains(c) by {
            if start.pins.contains(c) {
                assert(held(start, c));
            } else {
                let i = choose|i: int| 0 <= i < end.refs.len() && (#[trigger] end.refs[i]).1 == c;
                let k = lemma_pruned_from(full, t.keep_last, start.pins, n, i);
                if k > 0 {
                    assert(full.drop_first()[k - 1] == full[k]);
                    assert(start.refs[k - 1].1 == c);
                    assert(held(start, c));
                }
            }
        }
    } else {
        assert forall|c: Seq<char>| #[trigger] held(end, c) implies c.len() > 0
            && end.commits.dom().contains(c) by {
            assert(held(start, c)) by {
                if !start.pins.contains(c) {
                    let i = choose|i: int|
                        0 <= i < end.refs.len() && (#[trigger] end.refs[i]).1 == c;
                    assert(start.refs[i].1 == c);
                }
            }
        }
    }
}

/// The snapshots that are listed, the newest first: their ids and labels.
pub open spec fn listing(s: Store) -> Seq<(Seq<char>, Seq<char>)> {
    Seq::new(s.refs.len(), |i: int| (s.refs[i].1, s.commits[s.refs[i].1].label))
}

/// Whether git's list of the snapshots is that of a store.
pub open spec fn lists(s: Store, reply: Seq<char>) -> bool {
    let ls = text::lines_view(reply);
    let read = snapshot::listed_from(ls, ls.len() as int);
    &&& read.len() == s.refs.len()
    &&& forall|i: int|
        0 <= i < read.len() ==> (#[trigger] read[i]).id == listing(s)[i].0 && read[i].label
            == listing(s)[i].1
}

/// A snapshot that is taken records the files, leaves them as they are, and is the newest that is
/// listed, with its label where it is new.
pub proof fn snapshots_record_the_files(
    t: TermsView,
    start: Store,
    steps: Seq<Step>,
    r: Result<Seq<char>, Seq<char>>,
    end: Store,
)
    requires
        sound(start),
        t.keep_last >= 1,
        takes(t, TakeView::Preparing, start, steps, TakeView::Done(r), end),
    ensures
        r is Ok,
        sound(end),
        end.files == start.files,
        listing(end).len() > 0,
        listing(end)[0].0 == r->Ok_0,
        end.commits[r->Ok_0].tree == start.files,
        !unchanged(start) ==> listing(end)[0].1 == t.label,
{
    lemma_way(t, start, TakeView::Preparing, start, steps, TakeView::Done(r), end);
    lemma_after(t, start, r->Ok_0, end);
    assert(held(end, r->Ok_0)) by {
        assert(end.refs[0].1 == r->Ok_0);
    }
}

/// Two snapshots of a workspace that does not change between them have one id, and the list of
/// the snapshots stays as it is, with the label of the first.
pub proof fn snapshots_of_an_unchanged_workspace_are_one(
    t1: TermsView,
    t2: TermsView,
    start: Store,
    steps1: Seq<Step>,
    r1: Result<Seq<char>, Seq<char>>,
    between: Store,
    steps2: Seq<Step>,
    r2: Result<Seq<char>, Seq<char>>,
    end: Store,
)
    requires
        sound(start),
        t1.keep_last >= 1,
        t2.keep_last >= 1,
        takes(t1, TakeView::Preparing, start, steps1, TakeView::Done(r1), between),
        takes(t2, TakeView::Preparing, between, steps2, TakeView::Done(r2), end),
    ensures
        r1 is Ok,
        r2 == r1,
        listing(end) == listing(between),
        end.files == start.files,
{
    lemma_way(t1, start, TakeView::Preparing, start, steps1, TakeView::Done(r1), between);
    lemma_after(t1, start, r1->Ok_0, between);
    assert(unchanged(between));
    lemma_way(t2, between, TakeView::Preparing, between, steps2, TakeView::Done(r2), end);
    assert(listing(end) =~= listing(between));
}

/// A snapshot that was taken, from `start` to `end`.
pub struct Shot {
    pub terms: TermsView,
    pub start: Store,
    pub steps: Seq<Step>,
    pub id: Seq<char>,
    pub end: Store,
}

/// Whether snapshots were taken one after the other, each of a workspace that changed since the
/// one before, from a workspace without any; no restore is under way.
pub open spec fn in_a_row(shots: Seq<Shot>, keep: int) -> bool {
    &&& shots.len() > 0 ==> sound(shots[0].start) && shots[0].start.refs.len() == 0
    &&& forall|i: int|
        0 <= i < shots.len() ==> {
            let x = #[trigger] shots[i];
            &&& x.terms.keep_last == keep
            &&& takes(
                x.terms,
                TakeView::Preparing,
                x.start,
                x.steps,
                TakeView::Done(Ok(x.id)),
                x.end,
            )
            &&& !unchanged(x.start)
            &&& x.start.pins == Set::<Seq<char>>::empty()
        }
    &&& forall|i: int|
        0 < i < shots.len() ==> (#[trigger] shots[i]).start == (Store {
            files: shots[i].start.files,
            ..shots[i - 1].end
        })
}

/// The ids and labels of the first `n` snapshots of a row, the newest first.
pub open spec fn newest_first(shots: Seq<Shot>, n: int) -> Seq<(Seq<char>, Seq<char>)> {
    Seq::new(n as nat, |i: int| (shots[n - 1 - i].id, shots[n - 1 - i].terms.label))
}

/// The smaller of two numbers.
pub open spec fn least(a: int, b: int) -> int {
    if a < b {
        a
    } else {
        b
    }
}

proof fn lemma_only_newest(full: Refs, keep: int, n: int)
    requires
        0 <= n <= full.len(),
        keep >= 0,
    ensures
        pruned_to(full, keep, Set::empty(), n) == full.take(least(n, keep)),
    decreases n,
{
    if n > 0 {
        lemma_only_newest(full, keep, n - 1);
        if n <= keep {
            assert(full.take(n - 1).push(full[n - 1]) =~= full.take(n));
        }
    } else {
        assert(full.take(0) =~= Seq::empty());
    }
}

/// The list after a row of snapshots holds the newest ones, as many as are kept, the last that
/// was taken first, each with its label.
pub proof fn lists_hold_the_newest(shots: Seq<Shot>, keep: int, n: int)
    requires
        in_a_row(shots, keep),
        keep >= 1,
        0 < n <= shots.len(),
    ensures
        sound(shots[n - 1].end),
        listing(shots[n - 1].end) == newest_first(shots, n).take(least(n, keep)),
    decreases n,
{
    let x = shots[n - 1];
    let before = x.start;
    if n > 1 {
        lists_hold_the_newest(shots, keep, n - 1);
        let last = shots[n - 2].end;
        assert(before.refs == last.refs && before.commits == last.commits);
        assert forall|c: Seq<char>| #[trigger] held(before, c) implies c.len() > 0
            && before.commits.dom().contains(c) by {
            let i = choose|i: int| 0 <= i < before.refs.len() && (#[trigger] before.refs[i]).1 == c;
            assert(last.refs[i].1 == c);
            assert(held(last, c));
        }
        assert(sound(before));
        assert(listing(before) =~= listing(last));
    } else {
        assert(listing(before) =~= newest_first(shots, 0).take(0));
    }
    let was = newest_first(shots, n - 1).take(least(n - 1, keep));
    assert(listing(before) == was);
    lemma_way(
        x.terms,
        before,
        TakeView::Preparing,
        before,
        x.steps,
        TakeView::Done(Ok(x.id)),
        x.end,
    );
    lemma_after(x.terms, before, x.id, x.end);
    let full = choose|full: Refs|
        #[trigger] is_fresh(before, x.id, full) && x.end.refs == pruned(full, keep, before.pins);
    lemma_only_newest(full, keep, full.len() as int);
    let now = newest_first(shots, n).take(least(n, keep));
    assert(x.end.refs.len() == least(full.len() as int, keep));
    assert(before.refs.len() == was.len());
    assert forall|i: int| 0 <= i < x.end.refs.len() implies #[trigger] listing(x.end)[i] == now[i] by {
        let c = x.end.refs[i].1;
        assert(held(x.end, c)) by {
            assert(x.end.refs[i].1 == c);
        }
        if i > 0 {
            assert(full.drop_first()[i - 1] == full[i]);
            assert(before.refs[i - 1] == x.end.refs[i]);
            assert(held(before, c)) by {
                assert(before.refs[i - 1].1 == c);
            }
            assert(listing(before)[i - 1] == was[i - 1]);
            assert(was[i - 1] == newest_first(shots, n - 1)[i - 1]);
        }
    }
    assert(listing(x.end) =~= now);
}

/// What is read of git's list after a row of snapshots: the newest ones, as many as are kept, the
/// last that was taken first.
pub proof fn read_lists_hold_the_newest(shots: Seq<Shot>, keep: int, reply: Seq<char>, i: int)
    requires
        in_a_row(shots, keep),
        keep >= 1,
        shots.len() > 0,
        lists(shots.last().end, reply),
        0 <= i < least(shots.len() as int, keep),
    ensures
        ({
            let ls = text::lines_view(reply);
            let read = snapshot::listed_from(ls, ls.len() as int);
            let shot = shots[shots.len() - 1 - i];
            &&& read.len() == least(shots.len() as int, keep)
            &&& read[i].id == shot.id
            &&& read[i].label == shot.terms.label
        }),
{
    let n = shots.len() as int;
    lists_hold_the_newest(shots, keep, n);
    let end = shots.last().end;
    let kept = newest_first(shots, n).take(least(n, keep));
    assert(listing(end)[i] == kept[i]);
    assert(listing(end).len() == end.refs.len());
}

/// Whether a reply is what git and the workspace give at a stage of a restore to the commit
/// `full`, and leave the store `b`.
pub open spec fn restore_served(
    full: Seq<char>,
    s: RestoreView,
    a: Store,
    reply: Result<Seq<char>, Seq<char>>,
    now: nat,
    b: Store,
) -> bool {
    &&& !(s is Recording) ==> reply is Ok
    &&& match s {
        RestoreView::Resolving => b == a && text::trim_view(reply->Ok_0) == full,
        RestoreView::Pinning { .. } => b == (Store { pins: a.pins.insert(full), ..a }),
        RestoreView::Recording { terms, take, .. } => served(terms, take, a, reply, now, b),
        RestoreView::Unpinning { .. } => b == (Store { pins: a.pins.remove(full), ..a }),
        RestoreView::Done(_) => b == a,
        _ => {
            &&& restored_files::told(a.commits[full].tree, a.files, s, reply, b.files)
            &&& restored_files::told_of_others(a.commits[full].tree, a.others, s, b.others)
            &&& b == (Store { files: b.files, others: b.others, staged: b.staged, ..a })
        },
    }
}

/// Whether a restore comes by these steps from a stage with the store `a` to the stage `e` with
/// the store `b`.
pub open spec fn restores(
    raw: Seq<char>,
    t: TermsView,
    windows: bool,
    full: Seq<char>,
    s: RestoreView,
    a: Store,
    steps: Seq<Step>,
    e: RestoreView,
    b: Store,
) -> bool
    decreases steps.len(),
{
    if steps.len() == 0 {
        e == s && b == a
    } else {
        let x = steps[0];
        &&& restore_served(full, s, a, x.reply, x.now, x.next)
        &&& restores(
            raw,
            t,
            windows,
            full,
            snapshot_manager::restore_next(raw, t, s, x.reply, x.now, windows),
            x.next,
            steps.drop_first(),
            e,
            b,
        )
    }
}

/// Whether a store still holds what a restore to `full` has to leave of `start`: the target, in
/// the list if it was there, and, where `start` was sound, the files that were found, in the
/// newest snapshot.
pub open spec fn keeps_both(start: Store, full: Seq<char>, cur: Store) -> bool {
    &&& in_order(cur.refs)
    &&& cur.commits.dom().contains(full)
    &&& cur.commits[full] == start.commits[full]
    &&& listed(start, full) ==> listed(cur, full)
    &&& sound(start) ==> {
        &&& sound(cur)
        &&& cur.refs.len() > 0
        &&& cur.commits[cur.refs[0].1].tree == start.files
    }
}

/// Whether a restore can be asked of a store: the target is there, the files lie in the
/// workspace, and the refs are in order. Some of the refs may lead nowhere.
pub open spec fn restorable(s: Store, full: Seq<char>, windows: bool) -> bool {
    &&& in_order(s.refs)
    &&& full.len() > 0
    &&& s.commits.dom().contains(full)
    &&& restored_files::inside(s.files, windows)
}

/// Whether snapshots cover neither now nor in the commit `full` what stands beside the files: the
/// same files are ignored as then.
pub open spec fn apart(s: Store, full: Seq<char>) -> bool {
    forall|p: Seq<char>| #[trigger]
        s.others.dom().contains(p) ==> !s.files.dom().contains(p)
            && !s.commits[full].tree.dom().contains(p)
}

/// Whether a store is on its way at a stage of a restore to `full` that began with `start`.
spec fn on_way_back(t: TermsView, full: Seq<char>, start: Store, s: RestoreView, cur: Store) -> bool {
    let pinned = Store { pins: start.pins.insert(full), ..start };
    let target = start.commits[full].tree;
    let kept = keeps_both(start, full, cur) && cur.pins == pinned.pins;
    let on_course = restored_files::on_course(target, start.files, s, cur.files);
    &&& apart(start, full) ==> cur.others == start.others
    &&& match s {
        RestoreView::Resolving => cur == start,
        RestoreView::Pinning { full: f } => f == full && cur == start,
        RestoreView::Recording { full: f, terms, take } => {
            &&& f == full
            &&& terms == t
            &&& calm(pinned, take, cur)
            &&& sound(start) ==> on_way(t, pinned, take, cur)
        },
        RestoreView::Diffing { full: f } => f == full && kept && on_course,
        RestoreView::Probing { full: f, .. } => f == full && kept && on_course,
        RestoreView::CheckingOut { full: f, .. } => f == full && kept && on_course,
        RestoreView::Removing { full: f, .. } => f == full && kept && on_course,
        RestoreView::Sweeping { full: f, .. } => f == full && kept && on_course,
        RestoreView::Unpinning { full: f, result } => f == full && kept && result is Ok && cur.files
            == target,
        RestoreView::Done(r) => r is Ok && cur.files == target && keeps_both(start, full, cur)
            && cur.pins == start.pins.remove(full),
    }
}

proof fn lemma_pinned_sound(s: Store, full: Seq<char>)
    requires
        sound(s),
        full.len() > 0,
        s.commits.dom().contains(full),
    ensures
        sound(Store { pins: s.pins.insert(full), ..s }),
{
    let p = Store { pins: s.pins.insert(full), ..s };
    assert forall|c: Seq<char>| #[trigger] held(p, c) implies c.len() > 0 && p.commits.dom().contains(
        c,
    ) by {
        if c != full {
            assert(held(s, c)) by {
                if !s.pins.contains(c) {
                    let i = choose|i: int| 0 <= i < p.refs.len() && (#[trigger] p.refs[i]).1 == c;
                    assert(s.refs[i].1 == c);
                }
            }
        }
    }
}

proof fn lemma_same_refs(a: Store, b: Store, full: Seq<char>)
    requires
        b.refs == a.refs,
        b.commits == a.commits,
        b.pins.subset_of(a.pins),
    ensures
        sound(a) ==> sound(b),
        listed(a, full) ==> listed(b, full),
{
    if sound(a) {
        assert forall|c: Seq<char>| #[trigger] held(b, c) implies c.len() > 0
            && b.commits.dom().contains(c) by {
            assert(held(a, c)) by {
                if !b.pins.contains(c) {
                    let i = choose|i: int| 0 <= i < b.refs.len() && (#[trigger] b.refs[i]).1 == c;
                    assert(a.refs[i].1 == c);
                }
            }
        }
    }
    if listed(a, full) {
        let i = choose|i: int| 0 <= i < a.refs.len() && (#[trigger] a.refs[i]).1 == full;
        assert(b.refs[i].1 == full);
    }
}

proof fn lemma_step_back(
    raw: Seq<char>,
    t: TermsView,
    windows: bool,
    full: Seq<char>,
    start: Store,
    s: RestoreView,
    a: Store,
    reply: Result<Seq<char>, Seq<char>>,
    now: nat,
    b: Store,
)
    requires
        restorable(start, full, windows),
        t.keep_last >= 1,
        on_way_back(t, full, start, s, a),
        restore_served(full, s, a, reply, now, b),
    ensures
        on_way_back(
            t,
            full,
            start,
            snapshot_manager::restore_next(raw, t, s, reply, now, windows),
            b,
        ),
{
    let pinned = Store { pins: start.pins.insert(full), ..start };
    let target = start.commits[full].tree;
    match s {
        RestoreView::Recording { terms, take, .. } => {
            assert(b.others == a.others);
            lemma_calm_step(t, pinned, take, a, reply, now, b);
            if sound(start) {
                lemma_pinned_sound(start, full);
                lemma_step(t, pinned, take, a, reply, now, b);
            }
            let next = snapshot_manager::take_next(t, take, reply, now);
            if let TakeView::Done(Ok(id)) = next {
                if sound(start) {
                    lemma_after(t, pinned, id, b);
                }
                assert(pinned.pins.contains(full) && pinned.commits.dom().contains(full));
                if listed(start, full) {
                    let i = choose|i: int|
                        0 <= i < start.refs.len() && (#[trigger] start.refs[i]).1 == full;
                    assert(pinned.refs[i].1 == full);
                    assert(listed(pinned, full));
                }
            }
        },
        RestoreView::Resolving => {},
        RestoreView::Pinning { .. } => {
            assert forall|c: Seq<char>| listed(pinned, c) implies #[trigger] listed(b, c) by {
                let i = choose|i: int| 0 <= i < pinned.refs.len() && (#[trigger] pinned.refs[i]).1
                    == c;
                assert(b.refs[i].1 == c);
            }
        },
        RestoreView::Unpinning { .. } => {
            lemma_same_refs(a, b, full);
            assert(b.pins =~= start.pins.remove(full));
        },
        RestoreView::Done(_) => {},
        _ => {
            lemma_same_refs(a, b, full);
            if apart(start, full) {
                restored_files::lemma_others_stay(target, start.files, a.others, s, a.files, b.others);
            }
            restored_files::restores_bring_the_snapshot_back(
                target,
                start.files,
                raw,
                t,
                s,
                a.files,
                reply,
                now,
                b.files,
                windows,
            );
        },
    }
}

proof fn lemma_way_back(
    raw: Seq<char>,
    t: TermsView,
    windows: bool,
    full: Seq<char>,
    start: Store,
    s: RestoreView,
    a: Store,
    steps: Seq<Step>,
    e: RestoreView,
    b: Store,
)
    requires
        restorable(start, full, windows),
        t.keep_last >= 1,
        on_way_back(t, full, start, s, a),
        restores(raw, t, windows, full, s, a, steps, e, b),
    ensures
        on_way_back(t, full, start, e, b),
    decreases steps.len(),
{
    if steps.len() > 0 {
        let x = steps[0];
        lemma_step_back(raw, t, windows, full, start, s, a, x.reply, x.now, x.next);
        lemma_way_back(
            raw,
            t,
            windows,
            full,
            start,
            snapshot_manager::restore_next(raw, t, s, x.reply, x.now, windows),
            x.next,
            steps.drop_first(),
            e,
            b,
        );
    }
}

/// A restore, from its first stage to its last, brings the snapshot back: the files are those
/// that it recorded, and none that came after it. Refs that lead nowhere do not stop it. What
/// snapshots do not cover, ignored files and the user's own repository, is as it was before.
pub proof fn restores_end_with_the_snapshot(
    raw: Seq<char>,
    t: TermsView,
    windows: bool,
    full: Seq<char>,
    start: Store,
    steps: Seq<Step>,
    r: Result<(), Seq<char>>,
    end: Store,
)
    requires
        restorable(start, full, windows),
        t.keep_last >= 1,
        restores(
            raw,
            t,
            windows,
            full,
            RestoreView::Resolving,
            start,
            steps,
            RestoreView::Done(r),
            end,
        ),
    ensures
        r is Ok,
        end.files == start.commits[full].tree,
        apart(start, full) ==> end.others == start.others,
        !end.pins.contains(full),
{
    lemma_way_back(
        raw,
        t,
        windows,
        full,
        start,
        RestoreView::Resolving,
        start,
        steps,
        RestoreView::Done(r),
        end,
    );
}

/// What a restore removes are exactly the files that were created after the snapshot; no file
/// that snapshots do not cover is among them.
pub proof fn restores_remove_only_later_files(
    raw: Seq<char>,
    t: TermsView,
    windows: bool,
    full: Seq<char>,
    start: Store,
    steps: Seq<Step>,
    s: RestoreView,
    cur: Store,
    gone: Seq<Seq<char>>,
    p: Seq<char>,
)
    requires
        restorable(start, full, windows),
        t.keep_last >= 1,
        restores(raw, t, windows, full, RestoreView::Resolving, start, steps, s, cur),
        snapshot_manager::restore_action(raw, s, windows) == ActionView::RemoveFiles(gone),
    ensures
        gone.contains(p) <==> start.files.dom().contains(p)
            && !start.commits[full].tree.dom().contains(p),
{
    lemma_way_back(raw, t, windows, full, start, RestoreView::Resolving, start, steps, s, cur);
    assert(gone.contains(p) <==> restored_files::created(
        start.files,
        start.commits[full].tree,
        p,
    ));
}

/// The snapshot that a restore brought back stays listed, as it was, however few are kept, and,
/// in a sound store, what the restore found is in the newest snapshot that is listed.
pub proof fn restored_snapshots_stay_listed(
    raw: Seq<char>,
    t: TermsView,
    windows: bool,
    full: Seq<char>,
    start: Store,
    steps: Seq<Step>,
    r: Result<(), Seq<char>>,
    end: Store,
)
    requires
        restorable(start, full, windows),
        t.keep_last >= 1,
        listed(start, full),
        restores(
            raw,
            t,
            windows,
            full,
            RestoreView::Resolving,
            start,
            steps,
            RestoreView::Done(r),
            end,
        ),
    ensures
        listed(end, full),
        end.commits[full] == start.commits[full],
        sound(start) ==> {
            &&& sound(end)
            &&& listing(end).len() > 0
            &&& end.commits[listing(end)[0].0].tree == start.files
        },
{
    lemma_way_back(
        raw,
        t,
        windows,
        full,
        start,
        RestoreView::Resolving,
        start,
        steps,
        RestoreView::Done(r),
        end,
    );
}

/// A snapshot can be restored again: whatever becomes of the files after a restore, a second one
/// to the same snapshot ends with the same files.
pub proof fn snapshots_can_be_restored_again(
    raw: Seq<char>,
    t1: TermsView,
    t2: TermsView,
    windows: bool,
    full: Seq<char>,
    start: Store,
    steps1: Seq<Step>,
    r1: Result<(), Seq<char>>,
    between: Store,
    files: Tree,
    steps2: Seq<Step>,
    r2: Result<(), Seq<char>>,
    end: Store,
)
    requires
        restorable(start, full, windows),
        t1.keep_last >= 1,
        t2.keep_last >= 1,
        restored_files::inside(files, windows),
        restores(
            raw,
            t1,
            windows,
            full,
            RestoreView::Resolving,
            start,
            steps1,
            RestoreView::Done(r1),
            between,
        ),
        restores(
            raw,
            t2,
            windows,
            full,
            RestoreView::Resolving,
            Store { files, ..between },
            steps2,
            RestoreView::Done(r2),
            end,
        ),
    ensures
        r2 is Ok,
        end.files == start.commits[full].tree,
{
    lemma_way_back(
        raw,
        t1,
        windows,
        full,
        start,
        RestoreView::Resolving,
        start,
        steps1,
        RestoreView::Done(r1),
        between,
    );
    let changed = Store { files, ..between };
    restores_end_with_the_snapshot(raw, t2, windows, full, changed, steps2, r2, end);
}

/// A restore can be taken back: one to the newest snapshot after it ends with the files that the
/// first one found.
pub proof fn restores_can_be_taken_back(
    raw1: Seq<char>,
    raw2: Seq<char>,
    t1: TermsView,
    t2: TermsView,
    windows: bool,
    full: Seq<char>,
    start: Store,
    steps1: Seq<Step>,
    r1: Result<(), Seq<char>>,
    between: Store,
    files: Tree,
    steps2: Seq<Step>,
    r2: Result<(), Seq<char>>,
    end: Store,
)
    requires
        sound(start),
        restorable(start, full, windows),
        t1.keep_last >= 1,
        t2.keep_last >= 1,
        restored_files::inside(files, windows),
        restores(
            raw1,
            t1,
            windows,
            full,
            RestoreView::Resolving,
            start,
            steps1,
            RestoreView::Done(r1),
            between,
        ),
        restores(
            raw2,
            t2,
            windows,
            listing(between)[0].0,
            RestoreView::Resolving,
            Store { files, ..between },
            steps2,
            RestoreView::Done(r2),
            end,
        ),
    ensures
        r2 is Ok,
        end.files == start.files,
{
    lemma_way_back(
        raw1,
        t1,
        windows,
        full,
        start,
        RestoreView::Resolving,
        start,
        steps1,
        RestoreView::Done(r1),
        between,
    );
    let newest = between.refs[0].1;
    let changed = Store { files, ..between };
    lemma_same_refs(between, changed, newest);
    assert(held(between, newest));
    restores_end_with_the_snapshot(raw2, t2, windows, newest, changed, steps2, r2, end);
}

} // verus!
