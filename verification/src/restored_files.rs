//! What a restore does to the files of a workspace: a model of the files, and the law that a
//! restore keeps on it.

use vstd::prelude::*;

use crate::paths;
use crate::restore_paths;
use crate::snapshot_manager;
use crate::snapshot_manager::{ActionView, RestoreView, TermsView};
use crate::text;

verus! {

/// The files of a workspace that snapshots cover, or those that one recorded, by their path.
pub type Tree = Map<Seq<char>, Seq<char>>;

/// Whether a listing with NULs names a path.
pub open spec fn lists(listing: Seq<char>, p: Seq<char>) -> bool {
    p.len() > 0 && text::split_view(listing, '\0').contains(p)
}

/// Whether a path was created after a snapshot.
pub open spec fn created(files: Tree, target: Tree, p: Seq<char>) -> bool {
    files.dom().contains(p) && !target.dom().contains(p)
}

/// Whether all paths of the workspace lie in it.
pub open spec fn inside(files: Tree, windows: bool) -> bool {
    forall|p: Seq<char>| #[trigger]
        files.dom().contains(p) ==> p.len() > 0 && !restore_paths::suspicious(p, windows)
}

/// Whether a reply is what the workspace with `files` gives at a stage of a restore to `target`,
/// and leaves `next` there: git lists and checks out as it is asked, and files that are to go
/// are removed.
pub open spec fn told(
    target: Tree,
    files: Tree,
    s: RestoreView,
    reply: Result<Seq<char>, Seq<char>>,
    next: Tree,
) -> bool {
    match s {
        RestoreView::Diffing { .. } => next == files && (reply matches Ok(listing)
            ==> forall|p: Seq<char>| #[trigger] lists(listing, p) <==> created(files, target, p)),
        RestoreView::Probing { .. } => next == files && (reply matches Ok(out) ==> (
        text::trim_view(out).len() > 0 <==> target != Tree::empty())),
        RestoreView::CheckingOut { .. } => reply is Ok ==> next == files.union_prefer_right(target),
        RestoreView::Removing { files: gone, .. } => next == files.remove_keys(gone.to_set()),
        _ => next == files,
    }
}

/// Whether the files that snapshots do not cover are `next` after a stage of a restore to
/// `target`: a checkout writes the files of the target, and a removal takes what it is given,
/// whatever they are.
pub open spec fn told_of_others(target: Tree, others: Tree, s: RestoreView, next: Tree) -> bool {
    match s {
        RestoreView::CheckingOut { .. } => next == others.union_prefer_right(
            target.restrict(others.dom()),
        ),
        RestoreView::Removing { files: gone, .. } => next == others.remove_keys(gone.to_set()),
        _ => next == others,
    }
}

/// Whether the files are right at a stage of a restore to `target` that found the workspace
/// with `start`.
pub open spec fn on_course(target: Tree, start: Tree, s: RestoreView, files: Tree) -> bool {
    match s {
        RestoreView::Diffing { .. } => files == start,
        RestoreView::Probing { created: listing, .. } => files == start && forall|p: Seq<char>|
            #[trigger] lists(listing, p) <==> created(start, target, p),
        RestoreView::CheckingOut { created: listing, .. } => files == start && forall|
            p: Seq<char>,
        | #[trigger] lists(listing, p) <==> created(start, target, p),
        RestoreView::Removing { files: gone, .. } => files == start.union_prefer_right(target)
            && forall|p: Seq<char>| #[trigger] gone.contains(p) <==> created(start, target, p),
        RestoreView::Sweeping { files: gone, .. } => files == target && forall|p: Seq<char>|
            #[trigger] gone.contains(p) <==> created(start, target, p),
        RestoreView::Unpinning { result, .. } => result is Ok ==> files == target,
        RestoreView::Done(result) => result is Ok ==> files == target,
        _ => true,
    }
}

proof fn lemma_removable(raw: Seq<Seq<char>>, n: int, p: Seq<char>, windows: bool)
    requires
        0 <= n <= raw.len(),
    ensures
        restore_paths::removable_from(raw, n, windows).contains(p) <==> raw.take(n).contains(p) && p.len()
            > 0 && !restore_paths::suspicious(p, windows),
    decreases n,
{
    if n > 0 {
        lemma_removable(raw, n - 1, p, windows);
        let shorter = raw.take(n - 1);
        let longer = raw.take(n);
        assert(longer =~= shorter.push(raw[n - 1]));
        let before = restore_paths::removable_from(raw, n - 1, windows);
        let after = restore_paths::removable_from(raw, n, windows);
        if shorter.contains(p) {
            let i = choose|i: int| 0 <= i < shorter.len() && shorter[i] == p;
            assert(longer[i] == p);
        }
        if longer.contains(p) && !shorter.contains(p) {
            let i = choose|i: int| 0 <= i < longer.len() && longer[i] == p;
            assert(i == n - 1) by {
                if i < n - 1 {
                    assert(shorter[i] == p);
                }
            }
        }
        if raw[n - 1] == p {
            assert(longer[n - 1] == p);
        }
        if before.contains(p) {
            let i = choose|i: int| 0 <= i < before.len() && before[i] == p;
            assert(after[i] == p);
        }
        if after.contains(p) && !before.contains(p) {
            let i = choose|i: int| 0 <= i < after.len() && after[i] == p;
            if i < before.len() {
                assert(before[i] == p);
            }
        }
        if raw[n - 1] == p && p.len() > 0 && !restore_paths::suspicious(p, windows) {
            assert(after == before.push(p));
            assert(after[before.len() as int] == p);
        }
    }
}

proof fn lemma_gone(start: Tree, target: Tree, listing: Seq<char>, windows: bool)
    requires
        inside(start, windows),
        forall|p: Seq<char>| #[trigger] lists(listing, p) <==> created(start, target, p),
    ensures
        forall|p: Seq<char>| #[trigger]
            restore_paths::removable_view(listing, windows).contains(p) <==> created(start, target, p),
{
    let raw = text::split_view(listing, '\0');
    assert forall|p: Seq<char>| #[trigger]
        restore_paths::removable_view(listing, windows).contains(p) <==> created(start, target, p) by {
        lemma_removable(raw, raw.len() as int, p, windows);
        assert(raw.take(raw.len() as int) =~= raw);
        assert(lists(listing, p) <==> created(start, target, p));
        if created(start, target, p) {
            assert(start.dom().contains(p));
        }
    }
}

pub proof fn lemma_others_stay(
    target: Tree,
    start: Tree,
    others: Tree,
    s: RestoreView,
    files: Tree,
    next: Tree,
)
    requires
        on_course(target, start, s, files),
        told_of_others(target, others, s, next),
        forall|p: Seq<char>| #[trigger]
            others.dom().contains(p) ==> !start.dom().contains(p) && !target.dom().contains(p),
    ensures
        next == others,
{
    match s {
        RestoreView::CheckingOut { .. } => {
            assert(next =~= others);
        },
        RestoreView::Removing { files: gone, .. } => {
            assert forall|p: Seq<char>| #[trigger] others.dom().contains(p) implies !gone.to_set().contains(
                p,
            ) by {
                assert(gone.contains(p) <==> created(start, target, p));
            }
            assert(next =~= others);
        },
        _ => {},
    }
}

/// A restore brings the snapshot back. Where the replies are what git and the workspace give,
/// every stage leaves the files on their way, and a restore that ends well leaves exactly the
/// files of the snapshot: those that it recorded, and none that came after it.
pub proof fn restores_bring_the_snapshot_back(
    target: Tree,
    start: Tree,
    raw: Seq<char>,
    terms: TermsView,
    s: RestoreView,
    files: Tree,
    reply: Result<Seq<char>, Seq<char>>,
    now: nat,
    next: Tree,
    windows: bool,
)
    requires
        inside(start, windows),
        on_course(target, start, s, files),
        told(target, files, s, reply, next),
        snapshot_manager::has_recorded(s) || s is Unpinning || s is Done,
    ensures
        on_course(
            target,
            start,
            snapshot_manager::restore_next(raw, terms, s, reply, now, windows),
            next,
        ),
        snapshot_manager::restore_next(raw, terms, s, reply, now, windows) == RestoreView::Done(Ok(()))
            ==> next == target,
{
    match s {
        RestoreView::Probing { created: listing, .. } => {
            lemma_gone(start, target, listing, windows);
            if target == Tree::empty() {
                assert(start.union_prefer_right(target) =~= start);
            }
        },
        RestoreView::CheckingOut { created: listing, .. } => {
            lemma_gone(start, target, listing, windows);
        },
        RestoreView::Removing { files: gone, .. } => {
            assert forall|p: Seq<char>| #[trigger] gone.to_set().contains(p) <==> created(
                start,
                target,
                p,
            ) by {
                assert(gone.contains(p) <==> created(start, target, p));
            }
            assert(next =~= target);
        },
        _ => {},
    }
}

/// A restore removes, where they are empty, exactly the directories above the files that were
/// created after the snapshot, each before those above it.
pub proof fn emptied_directories_are_swept(
    target: Tree,
    start: Tree,
    raw: Seq<char>,
    s: RestoreView,
    files: Tree,
    windows: bool,
    d: Seq<char>,
)
    requires
        on_course(target, start, s, files),
        s is Sweeping,
    ensures
        snapshot_manager::restore_action(raw, s, windows) matches ActionView::RemoveDirs(dirs) && {
            &&& restore_paths::descending(dirs)
            &&& dirs.contains(d) <==> exists|p: Seq<char>, k: int|
                created(start, target, p) && 1 <= k < paths::parts_view(p, windows).len() && d
                    == #[trigger] restore_paths::dir_above(p, k, windows)
        },
{
    let gone = s->Sweeping_files;
    let dirs = restore_paths::swept(gone, windows);
    restore_paths::lemma_swept(gone, windows);
    assert(dirs.contains(d) <==> restore_paths::above_some(
        gone,
        gone.len() as int,
        d,
        windows,
    ));
    if dirs.contains(d) {
        let (i, k) = choose|i: int, k: int|
            0 <= i < gone.len() && 1 <= k < paths::parts_view(gone[i], windows).len() && d
                == #[trigger] restore_paths::dir_above(gone[i], k, windows);
        assert(gone.contains(gone[i]));
        assert(created(start, target, gone[i]));
    }
    if exists|p: Seq<char>, k: int|
        created(start, target, p) && 1 <= k < paths::parts_view(p, windows).len() && d
            == #[trigger] restore_paths::dir_above(p, k, windows) {
        let (p, k) = choose|p: Seq<char>, k: int|
            created(start, target, p) && 1 <= k < paths::parts_view(p, windows).len() && d
                == #[trigger] restore_paths::dir_above(p, k, windows);
        assert(gone.contains(p));
        let i = choose|i: int| 0 <= i < gone.len() && gone[i] == p;
        assert(d == restore_paths::dir_above(gone[i], k, windows));
    }
}

} // verus!
