//! Paths that a restore removes, and the pattern that keeps snapshots out of snapshots.

use vstd::prelude::*;

use crate::paths;
use crate::paths::{
    goes_up, is_anchored, parts_of, pieces_of, place_of, prefix_text, Prefix,
};
use crate::text;
use crate::text::{cat3, join, name_before, own, push_range, same, split};

verus! {

/// Whether a path may leave the workspace: it starts at a root or a drive, begins with the
/// directory itself, or goes up.
pub open spec fn suspicious(path: Seq<char>, windows: bool) -> bool {
    ||| paths::anchored(path, windows)
    ||| paths::pieces(path, windows)[0] == "."@
    ||| paths::climbs(path, windows)
}

/// Whether a path may leave the workspace.
pub fn is_suspicious(path: &str, windows: bool) -> (r: bool)
    ensures
        r == suspicious(path@, windows),
{
    let all = pieces_of(path, windows);
    proof {
        paths::lemma_some_piece(path@, windows);
        assert(paths::pieces(path@, windows)[0] == all@[0]@);
    }
    is_anchored(path, windows) || same(&all[0], ".") || goes_up(path, windows)
}

/// The paths among the first `n` that are there and stay in the workspace.
pub open spec fn removable_from(raw: Seq<Seq<char>>, n: int, windows: bool) -> Seq<Seq<char>>
    decreases n,
{
    if n <= 0 {
        Seq::empty()
    } else if raw[n - 1].len() == 0 || suspicious(raw[n - 1], windows) {
        removable_from(raw, n - 1, windows)
    } else {
        removable_from(raw, n - 1, windows).push(raw[n - 1])
    }
}

/// The paths that a listing with NULs names and that stay in the workspace.
pub open spec fn removable_view(listing: Seq<char>, windows: bool) -> Seq<Seq<char>> {
    let raw = text::split_view(listing, '\0');
    removable_from(raw, raw.len() as int, windows)
}

/// The paths that a listing with NULs names and that stay in the workspace.
pub fn removable(listing: &str, windows: bool) -> (r: Vec<String>)
    ensures
        text::views(r@) == removable_view(listing@, windows),
{
    let raw = split(listing, '\0');
    let ghost rv = text::split_view(listing@, '\0');
    let mut out: Vec<String> = Vec::new();
    let mut i: usize = 0;
    proof {
        text::lemma_views_empty(out@);
    }
    while i < raw.len()
        invariant
            i <= raw.len(),
            text::views(raw@) == rv,
            text::views(out@) == removable_from(rv, i as int, windows),
        decreases raw.len() - i,
    {
        broadcast use text::lemma_views_push;

        assert(rv[i as int] == raw@[i as int]@);
        if !raw[i].as_str().is_empty() && !is_suspicious(&raw[i], windows) {
            out.push(own(&raw[i]));
        }
        i += 1;
    }
    assert(rv.len() == raw@.len());
    out
}

proof fn lemma_removable(raw: Seq<Seq<char>>, n: int, p: Seq<char>, windows: bool)
    ensures
        removable_from(raw, n, windows).contains(p) ==> p.len() > 0 && !suspicious(p, windows),
    decreases n,
{
    if n > 0 {
        lemma_removable(raw, n - 1, p, windows);
        let before = removable_from(raw, n - 1, windows);
        let all = removable_from(raw, n, windows);
        if all.contains(p) && !before.contains(p) {
            let i = choose|i: int| 0 <= i < all.len() && all[i] == p;
            if i < before.len() {
                assert(before[i] == p);
            }
        }
    }
}

/// A restore removes no path that may leave the workspace.
pub proof fn removed_paths_stay_inside(listing: Seq<char>, p: Seq<char>, windows: bool)
    requires
        removable_view(listing, windows).contains(p),
    ensures
        p.len() > 0,
        !suspicious(p, windows),
{
    let raw = text::split_view(listing, '\0');
    lemma_removable(raw, raw.len() as int, p, windows);
}

/// The directory that the first `k` parts of a path name.
pub open spec fn dir_above(path: Seq<char>, k: int, windows: bool) -> Seq<char> {
    text::join_view(paths::parts_view(path, windows).take(k), "/"@)
}

/// Whether a directory lies above one of the first `n` paths.
pub open spec fn above_some(paths: Seq<Seq<char>>, n: int, d: Seq<char>, windows: bool) -> bool {
    exists|p: int, k: int|
        0 <= p < n && 1 <= k < paths::parts_view(paths[p], windows).len() && d == #[trigger] dir_above(
            paths[p],
            k,
            windows,
        )
}

/// Whether texts come in descending order, each once.
pub open spec fn descending(v: Seq<Seq<char>>) -> bool {
    forall|i: int, j: int|
        0 <= i < j < v.len() ==> text::text_before(#[trigger] v[j], #[trigger] v[i])
}

/// The directories above paths, in descending order: each comes before those above it.
pub open spec fn swept(paths: Seq<Seq<char>>, windows: bool) -> Seq<Seq<char>> {
    choose|v: Seq<Seq<char>>| #[trigger] sweeps(v, paths, windows)
}

/// Whether a list holds the directories above paths, in descending order.
pub open spec fn sweeps(v: Seq<Seq<char>>, paths: Seq<Seq<char>>, windows: bool) -> bool {
    &&& descending(v)
    &&& forall|d: Seq<char>| #[trigger]
        v.contains(d) <==> above_some(paths, paths.len() as int, d, windows)
}

proof fn lemma_rest(a: Seq<Seq<char>>, d: Seq<char>)
    requires
        descending(a),
        a.len() > 0,
    ensures
        descending(a.drop_first()),
        a.drop_first().contains(d) <==> a.contains(d) && d != a[0],
{
    let rest = a.drop_first();
    assert forall|i: int, j: int| 0 <= i < j < rest.len() implies text::text_before(
        #[trigger] rest[j],
        #[trigger] rest[i],
    ) by {
        assert(text::text_before(a[j + 1], a[i + 1]));
    }
    if rest.contains(d) {
        let k = choose|k: int| 0 <= k < rest.len() && rest[k] == d;
        assert(a[k + 1] == d);
        text::lemma_text_before_total(a[k + 1], a[0]);
    }
    if a.contains(d) && d != a[0] {
        let k = choose|k: int| 0 <= k < a.len() && a[k] == d;
        assert(rest[k - 1] == d);
    }
}

/// Lists in descending order that hold the same are the same.
pub proof fn descending_lists_are_one(a: Seq<Seq<char>>, b: Seq<Seq<char>>)
    requires
        descending(a),
        descending(b),
        forall|d: Seq<char>| #[trigger] a.contains(d) <==> b.contains(d),
    ensures
        a == b,
    decreases a.len(),
{
    if a.len() > 0 && b.len() > 0 {
        let x = a[0];
        let y = b[0];
        assert(a.contains(x) && b.contains(y));
        assert(b.contains(x) && a.contains(y));
        let j = choose|j: int| 0 <= j < b.len() && b[j] == x;
        let k = choose|k: int| 0 <= k < a.len() && a[k] == y;
        text::lemma_text_before_total(x, y);
        text::lemma_text_before_total(y, x);
        if j > 0 {
            assert(text::text_before(b[j], b[0]));
        }
        if k > 0 {
            assert(text::text_before(a[k], a[0]));
        }
        assert(x == y);
        assert forall|d: Seq<char>| #[trigger]
            a.drop_first().contains(d) <==> b.drop_first().contains(d) by {
            lemma_rest(a, d);
            lemma_rest(b, d);
        }
        lemma_rest(a, x);
        lemma_rest(b, x);
        descending_lists_are_one(a.drop_first(), b.drop_first());
        assert(a =~= seq![x] + a.drop_first());
        assert(b =~= seq![y] + b.drop_first());
    } else if a.len() > 0 {
        assert(a.contains(a[0]));
        assert(b.contains(a[0]));
    } else if b.len() > 0 {
        assert(b.contains(b[0]));
        assert(a.contains(b[0]));
    } else {
        assert(a =~= b);
    }
}

/// Puts a text into a list in descending order, unless it is there.
fn put_sorted(list: &mut Vec<String>, x: String)
    requires
        descending(text::views(old(list)@)),
    ensures
        descending(text::views(final(list)@)),
        forall|d: Seq<char>| #[trigger]
            text::views(final(list)@).contains(d) <==> (text::views(old(list)@).contains(d) || d
                == x@),
{
    let ghost before = text::views(list@);
    let mut i: usize = 0;
    while i < list.len() && name_before(&x, &list[i])
        invariant
            i <= list.len(),
            list@ == old(list)@,
            before == text::views(list@),
            forall|k: int| 0 <= k < i ==> text::text_before(x@, #[trigger] before[k]),
        decreases list.len() - i,
    {
        assert(before[i as int] == list@[i as int]@);
        i += 1;
    }
    if i < list.len() && same(&list[i], &x) {
        assert(before[i as int] == x@);
        assert(before.contains(x@));
        return ;
    }
    let ghost y = x@;
    list.insert(i, x);
    proof {
        let after = text::views(list@);
        assert(after =~= before.insert(i as int, y));
        assert forall|d: Seq<char>| #[trigger]
            after.contains(d) <==> (before.contains(d) || d == y) by {
            if before.contains(d) {
                let k = choose|k: int| 0 <= k < before.len() && before[k] == d;
                if k < i {
                    assert(after[k] == d);
                } else {
                    assert(after[k + 1] == d);
                }
            }
            assert(after[i as int] == y);
            if after.contains(d) && d != y {
                let k = choose|k: int| 0 <= k < after.len() && after[k] == d;
                if k < i {
                    assert(before[k] == d);
                } else {
                    assert(before[k - 1] == d);
                }
            }
        }
        assert forall|a: int, b: int| 0 <= a < b < after.len() implies text::text_before(
            #[trigger] after[b],
            #[trigger] after[a],
        ) by {
            if a == i {
                assert(after[b] == before[b - 1]);
                assert(after[a] == y);
                let z = before[i as int];
                text::lemma_text_before_total(y, z);
                assert(!text::text_before(y, z));
                assert(text::text_before(z, y));
                if b - 1 > i {
                    assert(text::text_before(before[b - 1], before[i as int]));
                    text::lemma_text_before_chain(before[b - 1], z, y);
                }
            } else if b == i {
                assert(after[a] == before[a]);
            } else {
                let p = if a < i {
                    a
                } else {
                    a - 1
                };
                let q = if b < i {
                    b
                } else {
                    b - 1
                };
                assert(after[a] == before[p]);
                assert(after[b] == before[q]);
            }
        }
    }
}

proof fn lemma_put(v: Seq<Seq<char>>, x: Seq<char>) -> (w: Seq<Seq<char>>)
    requires
        descending(v),
    ensures
        descending(w),
        forall|d: Seq<char>| #[trigger] w.contains(d) <==> v.contains(d) || d == x,
    decreases v.len(),
{
    if v.len() == 0 {
        let w = seq![x];
        assert(w[0] == x);
        w
    } else if text::text_before(v.last(), x) {
        let front = lemma_put(v.drop_last(), x);
        let w = front.push(v.last());
        assert(v.drop_last().push(v.last()) =~= v);
        assert forall|d: Seq<char>| #[trigger] w.contains(d) <==> v.contains(d) || d == x by {
            assert(front.contains(d) <==> v.drop_last().contains(d) || d == x);
            lemma_push_contains(front, v.last(), d);
            lemma_push_contains(v.drop_last(), v.last(), d);
        }
        assert forall|i: int, j: int| 0 <= i < j < w.len() implies text::text_before(
            #[trigger] w[j],
            #[trigger] w[i],
        ) by {
            if j == w.len() - 1 {
                assert(front.contains(front[i]));
                if front[i] != x {
                    let k = choose|k: int|
                        0 <= k < v.drop_last().len() && v.drop_last()[k] == front[i];
                    assert(v[k] == front[i]);
                    assert(text::text_before(v[v.len() - 1], v[k]));
                }
            } else {
                assert(w[i] == front[i] && w[j] == front[j]);
            }
        }
        w
    } else if v.last() == x {
        assert(v.contains(x)) by {
            assert(v[v.len() - 1] == x);
        }
        v
    } else {
        let w = v.push(x);
        text::lemma_text_before_total(x, v.last());
        assert forall|d: Seq<char>| #[trigger] w.contains(d) <==> v.contains(d) || d == x by {
            lemma_push_contains(v, x, d);
        }
        assert forall|i: int, j: int| 0 <= i < j < w.len() implies text::text_before(
            #[trigger] w[j],
            #[trigger] w[i],
        ) by {
            if j == v.len() {
                if i < v.len() - 1 {
                    assert(text::text_before(v[v.len() - 1], v[i]));
                    text::lemma_text_before_chain(x, v.last(), v[i]);
                }
            } else {
                assert(w[i] == v[i] && w[j] == v[j]);
            }
        }
        w
    }
}

proof fn lemma_push_contains(v: Seq<Seq<char>>, x: Seq<char>, d: Seq<char>)
    ensures
        v.push(x).contains(d) <==> v.contains(d) || d == x,
{
    let w = v.push(x);
    if v.contains(d) {
        let k = choose|k: int| 0 <= k < v.len() && v[k] == d;
        assert(w[k] == d);
    }
    assert(w[v.len() as int] == x);
    if w.contains(d) && d != x {
        let k = choose|k: int| 0 <= k < w.len() && w[k] == d;
        assert(v[k] == d);
    }
}

proof fn lemma_some_sweep(paths: Seq<Seq<char>>, n: int, m: int, windows: bool) -> (w: Seq<
    Seq<char>,
>)
    requires
        0 <= n < paths.len() || (n == paths.len() && m <= 1),
    ensures
        descending(w),
        forall|d: Seq<char>| #[trigger]
            w.contains(d) <==> above_some(paths, n, d, windows) || exists|k: int|
                1 <= k < m && d == #[trigger] dir_above(paths[n], k, windows),
    decreases n, m,
{
    if m > 1 {
        let v = lemma_some_sweep(paths, n, m - 1, windows);
        let x = dir_above(paths[n], m - 1, windows);
        let w = lemma_put(v, x);
        assert forall|d: Seq<char>| #[trigger]
            w.contains(d) <==> above_some(paths, n, d, windows) || exists|k: int|
                1 <= k < m && d == #[trigger] dir_above(paths[n], k, windows) by {
            assert(w.contains(d) <==> v.contains(d) || d == x);
            if exists|k: int| 1 <= k < m && d == #[trigger] dir_above(paths[n], k, windows) {
                let k = choose|k: int| 1 <= k < m && d == #[trigger] dir_above(paths[n], k, windows);
                if k < m - 1 {
                    assert(1 <= k < m - 1 && d == dir_above(paths[n], k, windows));
                }
            }
            if d == x {
                assert(1 <= m - 1 < m && d == dir_above(paths[n], m - 1, windows));
            }
        }
        w
    } else if n > 0 {
        let count = paths::parts_view(paths[n - 1], windows).len() as int;
        let w = lemma_some_sweep(paths, n - 1, count, windows);
        assert forall|d: Seq<char>| #[trigger] w.contains(d) <==> above_some(paths, n, d, windows)
            || exists|k: int| 1 <= k < m && d == #[trigger] dir_above(paths[n], k, windows) by {
            if above_some(paths, n, d, windows) {
                let (p, k) = choose|p: int, k: int|
                    0 <= p < n && 1 <= k < paths::parts_view(paths[p], windows).len() && d
                        == #[trigger] dir_above(paths[p], k, windows);
                if p < n - 1 {
                    assert(0 <= p < n - 1 && d == dir_above(paths[p], k, windows));
                    assert(above_some(paths, n - 1, d, windows));
                } else {
                    assert(1 <= k < count && d == dir_above(paths[n - 1], k, windows));
                }
            }
            if above_some(paths, n - 1, d, windows) {
                let (p, k) = choose|p: int, k: int|
                    0 <= p < n - 1 && 1 <= k < paths::parts_view(paths[p], windows).len() && d
                        == #[trigger] dir_above(paths[p], k, windows);
                assert(0 <= p < n && d == dir_above(paths[p], k, windows));
            }
            if exists|k: int| 1 <= k < count && d == #[trigger] dir_above(paths[n - 1], k, windows) {
                let k = choose|k: int|
                    1 <= k < count && d == #[trigger] dir_above(paths[n - 1], k, windows);
                assert(0 <= n - 1 < n && d == dir_above(paths[n - 1], k, windows));
            }
        }
        w
    } else {
        Seq::empty()
    }
}

pub proof fn lemma_swept(paths: Seq<Seq<char>>, windows: bool)
    ensures
        sweeps(swept(paths, windows), paths, windows),
{
    let w = lemma_some_sweep(paths, paths.len() as int, 0, windows);
    assert(sweeps(w, paths, windows));
}

/// The directories above paths, in an order in which each comes before those above it.
pub fn dirs_above(paths: &Vec<String>, windows: bool) -> (r: Vec<String>)
    ensures
        text::views(r@) == swept(text::views(paths@), windows),
        sweeps(text::views(r@), text::views(paths@), windows),
{
    let ghost pv = text::views(paths@);
    let mut out: Vec<String> = Vec::new();
    let mut i: usize = 0;
    proof {
        text::lemma_views_empty(out@);
    }
    while i < paths.len()
        invariant
            i <= paths.len(),
            pv == text::views(paths@),
            descending(text::views(out@)),
            forall|d: Seq<char>| #[trigger]
                text::views(out@).contains(d) <==> above_some(pv, i as int, d, windows),
        decreases paths.len() - i,
    {
        let parts = parts_of(&paths[i], windows);
        assert(pv[i as int] == paths@[i as int]@);
        let ghost all = paths::parts_view(pv[i as int], windows);
        let ghost start = text::views(out@);
        let n: usize = parts.len();
        assert(all.len() == n);
        let mut front: Vec<String> = Vec::new();
        let mut k: usize = 0;
        proof {
            text::lemma_views_empty(front@);
        }
        while k + 1 < n
            invariant
                k <= n,
                n == parts.len(),
                n > 0 ==> k < n,
                text::views(parts@) == all,
                all == paths::parts_view(pv[i as int], windows),
                text::views(front@) == all.take(k as int),
                descending(text::views(out@)),
                forall|d: Seq<char>| #[trigger]
                    text::views(out@).contains(d) <==> (start.contains(d) || exists|j: int|
                        1 <= j <= k && d == #[trigger] dir_above(pv[i as int], j, windows)),
            decreases n - k,
        {
            broadcast use text::lemma_views_push;

            let ghost held = text::views(out@);
            front.push(own(&parts[k]));
            assert(all[k as int] == parts@[k as int]@);
            k += 1;
            assert(text::views(front@) =~= all.take(k as int));
            let d = join(&front, "/");
            assert(d@ == dir_above(pv[i as int], k as int, windows));
            put_sorted(&mut out, d);
            assert forall|d: Seq<char>| #[trigger]
                text::views(out@).contains(d) <==> (start.contains(d) || exists|j: int|
                    1 <= j <= k && d == #[trigger] dir_above(pv[i as int], j, windows)) by {
                assert(text::views(out@).contains(d) <==> (held.contains(d) || d == dir_above(
                    pv[i as int],
                    k as int,
                    windows,
                )));
                if held.contains(d) && !start.contains(d) {
                    let j = choose|j: int|
                        1 <= j <= k - 1 && d == #[trigger] dir_above(pv[i as int], j, windows);
                    assert(1 <= j <= k && d == dir_above(pv[i as int], j, windows));
                }
            }
        }
        assert forall|d: Seq<char>| #[trigger]
            text::views(out@).contains(d) <==> above_some(pv, i + 1, d, windows) by {
            assert(start.contains(d) <==> above_some(pv, i as int, d, windows));
            if above_some(pv, i as int, d, windows) {
                let (p, j) = choose|p: int, j: int|
                    0 <= p < i && 1 <= j < paths::parts_view(pv[p], windows).len() && d == #[trigger] dir_above(
                        pv[p],
                        j,
                        windows,
                    );
                assert(0 <= p < i + 1 && d == dir_above(pv[p], j, windows));
            }
            if above_some(pv, i + 1, d, windows) && !above_some(pv, i as int, d, windows) {
                let (p, j) = choose|p: int, j: int|
                    0 <= p < i + 1 && 1 <= j < paths::parts_view(pv[p], windows).len() && d
                        == #[trigger] dir_above(pv[p], j, windows);
                assert(p == i);
            }
            if exists|j: int| 1 <= j <= k && d == #[trigger] dir_above(pv[i as int], j, windows) {
                let j = choose|j: int| 1 <= j <= k && d == #[trigger] dir_above(pv[i as int], j, windows);
                assert(0 <= i as int && d == dir_above(pv[i as int], j, windows));
            }
        }
        i += 1;
    }
    proof {
        let v = text::views(out@);
        assert(sweeps(v, pv, windows));
        descending_lists_are_one(v, swept(pv, windows));
    }
    out
}

proof fn lemma_front_before(p: Seq<char>, s: Seq<char>)
    requires
        s.len() > 0,
    ensures
        text::text_before(p, p + s),
    decreases p.len(),
{
    if p.len() > 0 {
        assert((p + s).drop_first() =~= p.drop_first() + s);
        lemma_front_before(p.drop_first(), s);
    }
}

/// In a list in descending order a directory comes before those above it.
pub proof fn deeper_directories_come_first(
    dirs: Seq<Seq<char>>,
    i: int,
    j: int,
    below: Seq<char>,
)
    requires
        descending(dirs),
        0 <= i < dirs.len(),
        0 <= j < dirs.len(),
        dirs[i] == dirs[j] + "/"@ + below,
    ensures
        i < j,
{
    reveal_strlit("/");
    let s = "/"@ + below;
    assert(dirs[j] + "/"@ + below =~= dirs[j] + s);
    lemma_front_before(dirs[j], s);
    text::lemma_text_before_total(dirs[j], dirs[i]);
    if j < i {
        assert(text::text_before(dirs[i], dirs[j]));
    }
}

/// How the directory of the snapshots lies to the workspace.
#[derive(Debug)]
pub enum SelfExclude {
    /// Outside it.
    Outside,
    /// It is the workspace.
    Same,
    /// Inside it: this is what keeps it out of snapshots.
    Pattern(String),
}

/// What a [`SelfExclude`] stands for.
#[verifier::ext_equal]
pub enum ExcludeView {
    Outside,
    Same,
    Pattern(Seq<char>),
}

impl View for SelfExclude {
    type V = ExcludeView;

    open spec fn view(&self) -> ExcludeView {
        match self {
            SelfExclude::Outside => ExcludeView::Outside,
            SelfExclude::Same => ExcludeView::Same,
            SelfExclude::Pattern(p) => ExcludeView::Pattern(p@),
        }
    }
}

/// What stands before the names of a path, as parts of it: its prefix, and its root.
pub open spec fn front(path: Seq<char>, windows: bool, with_prefix: bool) -> Seq<Seq<char>> {
    let at = paths::place(path, windows);
    let first = if with_prefix && !(at.prefix is Plain) {
        seq![path.take(paths::prefix_len(at.prefix) as int)]
    } else {
        Seq::empty()
    };
    if at.rooted {
        first.push(
            if windows {
                "\\"@
            } else {
                "/"@
            },
        )
    } else {
        first
    }
}

/// The parts of a path that lead to it from one above it; nothing where the other is not above it.
pub open spec fn leading(root: Seq<char>, above: Seq<char>, windows: bool) -> Option<
    Seq<Seq<char>>,
> {
    let r = paths::place(root, windows);
    let w = paths::place(above, windows);
    let n = w.parts.len() as int;
    if !w.rooted && n == 0 && w.prefix is Plain {
        Some(front(root, windows, true) + r.parts)
    } else if r.prefix != w.prefix {
        None
    } else if !w.rooted && n == 0 {
        Some(front(root, windows, false) + r.parts)
    } else if r.rooted == w.rooted && n <= r.parts.len() && r.parts.take(n) == w.parts {
        Some(r.parts.skip(n))
    } else {
        None
    }
}

/// How the directory of the snapshots lies to the workspace.
pub open spec fn exclude_view(
    root: Seq<char>,
    workspace: Seq<char>,
    windows: bool,
) -> ExcludeView {
    match leading(root, workspace, windows) {
        None => ExcludeView::Outside,
        Some(parts) => if parts.len() == 0 {
            ExcludeView::Same
        } else {
            ExcludeView::Pattern("/"@ + text::join_view(parts, "/"@) + "/\n"@)
        },
    }
}

fn front_of(path: &str, windows: bool, with_prefix: bool) -> (r: Vec<String>)
    ensures
        text::views(r@) == front(path@, windows, with_prefix),
{
    broadcast use text::lemma_views_push;

    let at = place_of(path, windows);
    let mut out: Vec<String> = Vec::new();
    proof {
        text::lemma_views_empty(out@);
    }
    let plain = match &at.prefix {
        Prefix::Plain => true,
        _ => false,
    };
    if with_prefix && !plain {
        out.push(prefix_text(path, windows));
        assert(text::views(out@) =~= seq![path@.take(paths::prefix_len(at.prefix@) as int)]);
    }
    if at.rooted {
        out.push(
            own(
                if windows {
                    "\\"
                } else {
                    "/"
                },
            ),
        );
    }
    out
}

/// Whether a list of texts begins with another.
fn begins_with(list: &Vec<String>, front: &Vec<String>) -> (r: bool)
    ensures
        r == (front.len() <= list.len() && text::views(list@).take(front.len() as int)
            == text::views(front@)),
{
    let ghost lv = text::views(list@);
    let ghost fv = text::views(front@);
    let n: usize = front.len();
    if n > list.len() {
        return false;
    }
    let mut i: usize = 0;
    while i < n
        invariant
            i <= n,
            n == front.len(),
            n <= list.len(),
            text::views(list@) == lv,
            text::views(front@) == fv,
            forall|k: int| 0 <= k < i ==> #[trigger] lv[k] == fv[k],
        decreases n - i,
    {
        assert(lv[i as int] == list@[i as int]@);
        assert(fv[i as int] == front@[i as int]@);
        if !same(&list[i], &front[i]) {
            assert(lv.take(n as int)[i as int] != fv[i as int]);
            return false;
        }
        i += 1;
    }
    assert(lv.take(n as int) =~= fv);
    true
}

/// The parts of a path that lead to it from one above it.
fn leading_parts(root: &str, above: &str, windows: bool) -> (r: Option<Vec<String>>)
    ensures
        (match r {
            Some(v) => Some(text::views(v@)),
            None => None,
        }) == leading(root@, above@, windows),
{
    let r = place_of(root, windows);
    let w = place_of(above, windows);
    let n: usize = w.parts.len();
    let m: usize = r.parts.len();
    assert(w@.parts.len() == n && r@.parts.len() == m);
    let plain = match &w.prefix {
        Prefix::Plain => true,
        _ => false,
    };
    let same_prefix = r.prefix.is_same(&w.prefix);
    if !w.rooted && n == 0 && (plain || same_prefix) {
        let mut out = front_of(root, windows, plain);
        let ghost first = out@;
        push_range(&mut out, &r.parts, 0, m);
        assert(out@ =~= first + r.parts@);
        assert(text::views(out@) =~= text::views(first) + r@.parts);
        return Some(out);
    }
    if same_prefix && r.rooted == w.rooted && begins_with(&r.parts, &w.parts) {
        let mut out: Vec<String> = Vec::new();
        push_range(&mut out, &r.parts, n, m);
        assert(out@ =~= r.parts@.subrange(n as int, m as int));
        assert(text::views(out@) =~= r@.parts.skip(n as int));
        return Some(out);
    }
    None
}

/// How the directory of the snapshots lies to the workspace, and what keeps it out of snapshots
/// where it lies inside.
pub fn self_exclude(root: &str, workspace: &str, windows: bool) -> (r: SelfExclude)
    ensures
        r@ == exclude_view(root@, workspace@, windows),
{
    match leading_parts(root, workspace, windows) {
        None => SelfExclude::Outside,
        Some(parts) => {
            assert(text::views(parts@).len() == parts@.len());
            if parts.len() == 0 {
                SelfExclude::Same
            } else {
                SelfExclude::Pattern(cat3("/", &join(&parts, "/"), "/\n"))
            }
        },
    }
}

} // verus!
