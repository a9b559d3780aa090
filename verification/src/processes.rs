//! Process trees: which processes a command started, and which of them must be killed.

use vstd::prelude::*;

use crate::bytes;
use crate::bytes::from_utf8_lossy;
use crate::text;
use crate::text::{lines, parse_number, words};

verus! {

/// The process and its parent that a line of a process listing names.
pub open spec fn line_edge(line: Seq<char>) -> Option<(u32, u32)> {
    let w = text::words_view(line);
    if w.len() < 2 {
        None
    } else {
        match (text::number(w[0], u32::MAX as nat), text::number(w[1], u32::MAX as nat)) {
            (Some(pid), Some(parent)) => Some((pid as u32, parent as u32)),
            _ => None,
        }
    }
}

/// The processes, each with its parent, that the first `n` lines name.
pub open spec fn edges_of(ls: Seq<Seq<char>>, n: int) -> Seq<(u32, u32)>
    decreases n,
{
    if n <= 0 {
        Seq::empty()
    } else {
        let before = edges_of(ls, n - 1);
        match line_edge(ls[n - 1]) {
            Some(e) => before.push(e),
            None => before,
        }
    }
}

/// The processes, each with its parent, that a process listing names.
pub open spec fn listing_view(listing: Seq<u8>) -> Seq<(u32, u32)> {
    let ls = text::lines_view(bytes::lossy(listing));
    edges_of(ls, ls.len() as int)
}

/// Whether `pid` is a child of `parent`.
pub open spec fn is_child(edges: Seq<(u32, u32)>, parent: u32, pid: u32) -> bool {
    edges.contains((pid, parent))
}

/// Whether `pid` descends from `root` in `n + 1` generations.
pub open spec fn descends_in(edges: Seq<(u32, u32)>, root: u32, pid: u32, n: nat) -> bool
    decreases n,
{
    if n == 0 {
        is_child(edges, root, pid)
    } else {
        exists|q: u32|
            descends_in(edges, root, q, (n - 1) as nat) && #[trigger] is_child(edges, q, pid)
    }
}

/// Whether `pid` descends from `root`.
pub open spec fn descends(edges: Seq<(u32, u32)>, root: u32, pid: u32) -> bool {
    exists|n: nat| descends_in(edges, root, pid, n)
}

proof fn lemma_descends_child(edges: Seq<(u32, u32)>, root: u32, q: u32, pid: u32)
    requires
        descends(edges, root, q),
        is_child(edges, q, pid),
    ensures
        descends(edges, root, pid),
{
    let n = choose|n: nat| descends_in(edges, root, q, n);
    assert(descends_in(edges, root, pid, n + 1));
}

/// A set of processes that holds the children of `root` and of each of its own holds all
/// descendants.
proof fn lemma_closed(edges: Seq<(u32, u32)>, root: u32, all: Seq<u32>, pid: u32, n: nat)
    requires
        forall|p: u32| #[trigger] is_child(edges, root, p) ==> all.contains(p),
        forall|q: u32, p: u32|
            all.contains(q) && #[trigger] is_child(edges, q, p) ==> all.contains(p),
        descends_in(edges, root, pid, n),
    ensures
        all.contains(pid),
    decreases n,
{
    if n > 0 {
        let q = choose|q: u32|
            descends_in(edges, root, q, (n - 1) as nat) && #[trigger] is_child(edges, q, pid);
        lemma_closed(edges, root, all, q, (n - 1) as nat);
    }
}

/// Reads a process listing.
fn read_listing(listing: &[u8]) -> (r: Vec<(u32, u32)>)
    ensures
        r@ == listing_view(listing@),
{
    let ls = lines(&from_utf8_lossy(listing));
    let ghost lv = text::lines_view(bytes::lossy(listing@));
    let mut out: Vec<(u32, u32)> = Vec::new();
    let mut i: usize = 0;
    assert(out@ =~= edges_of(lv, 0));
    while i < ls.len()
        invariant
            i <= ls.len(),
            text::views(ls@) == lv,
            out@ == edges_of(lv, i as int),
        decreases ls.len() - i,
    {
        assert(lv[i as int] == ls@[i as int]@);
        let w = words(&ls[i]);
        assert(w.len() == text::words_view(lv[i as int]).len());
        if w.len() >= 2 {
            assert(w@[0]@ == text::words_view(lv[i as int])[0]);
            assert(w@[1]@ == text::words_view(lv[i as int])[1]);
            if let Some(pid) = parse_number(&w[0], u32::MAX as u64) {
                if let Some(parent) = parse_number(&w[1], u32::MAX as u64) {
                    out.push((pid as u32, parent as u32));
                }
            }
        }
        i += 1;
    }
    out
}

/// Puts the children of a process on a stack.
fn push_children(stack: &mut Vec<u32>, edges: &Vec<(u32, u32)>, parent: u32)
    ensures
        final(stack)@.len() >= old(stack)@.len(),
        final(stack)@.take(old(stack)@.len() as int) == old(stack)@,
        forall|i: int|
            old(stack)@.len() <= i < final(stack)@.len() ==> is_child(
                edges@,
                parent,
                #[trigger] final(stack)@[i],
            ),
        forall|p: u32| #[trigger] is_child(edges@, parent, p) ==> final(stack)@.contains(p),
{
    let ghost before = stack@;
    let mut i: usize = 0;
    assert(stack@.take(before.len() as int) =~= before);
    while i < edges.len()
        invariant
            i <= edges.len(),
            before.len() <= stack.len(),
            stack@.take(before.len() as int) == before,
            forall|k: int|
                before.len() <= k < stack.len() ==> is_child(edges@, parent, #[trigger] stack@[k]),
            forall|k: int|
                0 <= k < i && (#[trigger] edges@[k]).1 == parent ==> stack@.contains(edges@[k].0),
        decreases edges.len() - i,
    {
        let (pid, up): (u32, u32) = edges[i];
        if up == parent {
            let ghost shorter = stack@;
            stack.push(pid);
            assert(stack@.take(before.len() as int) =~= before);
            assert(edges@[i as int] == (pid, parent));
            assert(stack@[stack.len() - 1] == pid);
            assert forall|k: int|
                0 <= k < i + 1 && (#[trigger] edges@[k]).1 == parent implies stack@.contains(
                edges@[k].0,
            ) by {
                if k < i {
                    let m = choose|m: int| 0 <= m < shorter.len() && shorter[m] == edges@[k].0;
                    assert(stack@[m] == shorter[m]);
                }
            }
        }
        i += 1;
    }
    assert forall|p: u32| #[trigger] is_child(edges@, parent, p) implies stack@.contains(p) by {
        let k = choose|k: int| 0 <= k < edges.len() && edges@[k] == (p, parent);
        assert(edges@[k].1 == parent);
    }
}

/// Whether a list holds a process.
fn has_pid(list: &Vec<u32>, pid: u32) -> (r: bool)
    ensures
        r == list@.contains(pid),
{
    let mut i: usize = 0;
    while i < list.len()
        invariant
            i <= list.len(),
            forall|k: int| 0 <= k < i ==> #[trigger] list@[k] != pid,
        decreases list.len() - i,
    {
        if list[i] == pid {
            assert(list@[i as int] == pid);
            return true;
        }
        i += 1;
    }
    false
}

/// The children in a list of processes with their parents.
spec fn pids(edges: Seq<(u32, u32)>) -> Seq<u32> {
    Seq::new(edges.len(), |i: int| edges[i].0)
}

proof fn lemma_found_are_few(edges: Seq<(u32, u32)>, found: Seq<u32>)
    requires
        found.no_duplicates(),
        forall|i: int| 0 <= i < found.len() ==> pids(edges).contains(#[trigger] found[i]),
    ensures
        found.len() <= edges.len(),
{
    let all = pids(edges);
    found.unique_seq_to_set();
    all.lemma_cardinality_of_set();
    assert(found.to_set().subset_of(all.to_set()));
    vstd::set_lib::lemma_len_subset(found.to_set(), all.to_set());
}

/// The processes that descend from `root` in a process listing, each once. Their order is
/// that of a walk through the tree and carries no meaning.
pub fn collect_descendant_pids(root: u32, listing: &[u8]) -> (r: Vec<u32>)
    ensures
        r@.no_duplicates(),
        forall|p: u32| #[trigger] r@.contains(p) <==> descends(listing_view(listing@), root, p),
{
    let edges = read_listing(listing);
    let ghost ev = edges@;
    let mut found: Vec<u32> = Vec::new();
    let mut stack: Vec<u32> = Vec::new();
    push_children(&mut stack, &edges, root);
    proof {
        assert forall|i: int| 0 <= i < stack.len() implies descends(ev, root, #[trigger] stack@[i])
            && pids(ev).contains(stack@[i]) by {
            assert(descends_in(ev, root, stack@[i], 0));
            let k = choose|k: int| 0 <= k < ev.len() && ev[k] == (stack@[i], root);
            assert(pids(ev)[k] == stack@[i]);
        }
    }
    while stack.len() > 0
        invariant
            edges@ == ev,
            found@.no_duplicates(),
            forall|i: int| 0 <= i < stack.len() ==> descends(ev, root, #[trigger] stack@[i]),
            forall|i: int| 0 <= i < found.len() ==> descends(ev, root, #[trigger] found@[i]),
            forall|i: int| 0 <= i < stack.len() ==> pids(ev).contains(#[trigger] stack@[i]),
            forall|i: int| 0 <= i < found.len() ==> pids(ev).contains(#[trigger] found@[i]),
            forall|p: u32| #[trigger]
                is_child(ev, root, p) ==> found@.contains(p) || stack@.contains(p),
            forall|q: u32, p: u32|
                found@.contains(q) && #[trigger] is_child(ev, q, p) ==> found@.contains(p)
                    || stack@.contains(p),
            found.len() <= ev.len(),
        decreases ev.len() - found.len(), stack.len(),
    {
        let ghost before = stack@;
        let ghost found_before = found@;
        match stack.pop() {
            Some(pid) => {
                assert(before.last() == pid);
                assert(before[before.len() - 1] == pid);
                assert forall|p: u32| before.contains(p) implies p == pid || stack@.contains(p) by {
                    let k = choose|k: int| 0 <= k < before.len() && before[k] == p;
                    if k < before.len() - 1 {
                        assert(stack@[k] == p);
                    }
                }
                if !has_pid(&found, pid) {
                    found.push(pid);
                    proof {
                        assert(found@[found.len() - 1] == pid);
                        assert forall|p: u32| found_before.contains(p) implies found@.contains(p) by {
                            let k = choose|k: int| 0 <= k < found_before.len() && found_before[k]
                                == p;
                            assert(found@[k] == p);
                        }
                        assert forall|p: u32| found@.contains(p) implies p == pid
                            || found_before.contains(p) by {
                            let k = choose|k: int| 0 <= k < found.len() && found@[k] == p;
                            if k < found_before.len() {
                                assert(found_before[k] == p);
                            }
                        }
                        lemma_found_are_few(ev, found@);
                    }
                    let ghost shorter = stack@;
                    push_children(&mut stack, &edges, pid);
                    proof {
                        assert forall|p: u32| shorter.contains(p) implies stack@.contains(p) by {
                            let k = choose|k: int| 0 <= k < shorter.len() && shorter[k] == p;
                            assert(stack@.take(shorter.len() as int)[k] == p);
                            assert(stack@[k] == p);
                        }
                        assert forall|i: int| 0 <= i < stack.len() implies descends(
                            ev,
                            root,
                            #[trigger] stack@[i],
                        ) && pids(ev).contains(stack@[i]) by {
                            if i < shorter.len() {
                                assert(stack@.take(shorter.len() as int)[i] == shorter[i]);
                                assert(shorter[i] == before[i]);
                            } else {
                                lemma_descends_child(ev, root, pid, stack@[i]);
                                let k = choose|k: int| 0 <= k < ev.len() && ev[k] == (
                                    stack@[i],
                                    pid,
                                );
                                assert(pids(ev)[k] == stack@[i]);
                            }
                        }
                    }
                } else {
                    assert forall|i: int| 0 <= i < stack.len() implies descends(
                        ev,
                        root,
                        #[trigger] stack@[i],
                    ) && pids(ev).contains(stack@[i]) by {
                        assert(stack@[i] == before[i]);
                    }
                }
            },
            None => {},
        }
    }
    proof {
        assert forall|p: u32| #[trigger] found@.contains(p) <==> descends(ev, root, p) by {
            if found@.contains(p) {
                let k = choose|k: int| 0 <= k < found.len() && found@[k] == p;
                assert(descends(ev, root, found@[k]));
            }
            if descends(ev, root, p) {
                let n = choose|n: nat| descends_in(ev, root, p, n);
                lemma_closed(ev, root, found@, p, n);
            }
        }
    }
    found
}

/// The processes that may still run once a first signal has had its time: those that were
/// found before and those that are found now, each once, in ascending order.
pub fn survivors(first: &Vec<u32>, second: &Vec<u32>) -> (r: Vec<u32>)
    ensures
        forall|i: int, j: int| 0 <= i < j < r.len() ==> r@[i] < r@[j],
        forall|p: u32| #[trigger] r@.contains(p) <==> first@.contains(p) || second@.contains(p),
{
    let mut out: Vec<u32> = Vec::new();
    let mut i: usize = 0;
    while i < first.len()
        invariant
            i <= first.len(),
            forall|a: int, b: int| 0 <= a < b < out.len() ==> out@[a] < out@[b],
            forall|p: u32| #[trigger] out@.contains(p) <==> first@.take(i as int).contains(p),
        decreases first.len() - i,
    {
        insert_sorted(&mut out, first[i]);
        proof {
            lemma_take_contains(first@, i as int);
        }
        i += 1;
    }
    assert(first@.take(i as int) =~= first@);
    let mut j: usize = 0;
    assert(second@.take(0) =~= Seq::<u32>::empty());
    while j < second.len()
        invariant
            j <= second.len(),
            forall|a: int, b: int| 0 <= a < b < out.len() ==> out@[a] < out@[b],
            forall|p: u32| #[trigger]
                out@.contains(p) <==> first@.contains(p) || second@.take(j as int).contains(p),
        decreases second.len() - j,
    {
        insert_sorted(&mut out, second[j]);
        proof {
            lemma_take_contains(second@, j as int);
        }
        j += 1;
    }
    assert(second@.take(j as int) =~= second@);
    out
}

proof fn lemma_take_contains(s: Seq<u32>, i: int)
    requires
        0 <= i < s.len(),
    ensures
        forall|p: u32| #[trigger]
            s.take(i + 1).contains(p) <==> s.take(i).contains(p) || p == s[i],
{
    assert forall|p: u32| #[trigger]
        s.take(i + 1).contains(p) <==> s.take(i).contains(p) || p == s[i] by {
        let longer = s.take(i + 1);
        if longer.contains(p) {
            let k = choose|k: int| 0 <= k < longer.len() && longer[k] == p;
            if k < i {
                assert(s.take(i)[k] == p);
            }
        }
        if s.take(i).contains(p) {
            let k = choose|k: int| 0 <= k < i && s.take(i)[k] == p;
            assert(s.take(i + 1)[k] == p);
        }
        if p == s[i] {
            assert(s.take(i + 1)[i] == p);
        }
    }
}

/// Puts a process into an ascending list, unless it is there.
fn insert_sorted(out: &mut Vec<u32>, pid: u32)
    requires
        forall|a: int, b: int| 0 <= a < b < old(out).len() ==> old(out)@[a] < old(out)@[b],
    ensures
        forall|a: int, b: int| 0 <= a < b < final(out)@.len() ==> final(out)@[a] < final(out)@[b],
        forall|p: u32| #[trigger]
            final(out)@.contains(p) <==> old(out)@.contains(p) || p == pid,
{
    let ghost before = out@;
    let mut i: usize = 0;
    while i < out.len() && out[i] < pid
        invariant
            i <= out.len(),
            out@ == before,
            forall|k: int| 0 <= k < i ==> #[trigger] out@[k] < pid,
        decreases out.len() - i,
    {
        i += 1;
    }
    if i < out.len() && out[i] == pid {
        assert(before[i as int] == pid);
        return;
    }
    out.insert(i, pid);
    proof {
        assert(out@ == before.insert(i as int, pid));
        assert forall|p: u32| #[trigger] out@.contains(p) <==> before.contains(p) || p == pid by {
            if before.contains(p) {
                let k = choose|k: int| 0 <= k < before.len() && before[k] == p;
                if k < i {
                    assert(out@[k] == p);
                } else {
                    assert(out@[k + 1] == p);
                }
            }
            if p == pid {
                assert(out@[i as int] == p);
            }
            if out@.contains(p) {
                let k = choose|k: int| 0 <= k < out.len() && out@[k] == p;
                if k < i {
                    assert(before[k] == p);
                } else if k > i {
                    assert(before[k - 1] == p);
                }
            }
        }
        assert forall|a: int, b: int| 0 <= a < b < out.len() implies out@[a] < out@[b] by {
            if a < i && b > i {
                assert(before[a] < before[b - 1]);
            }
        }
    }
}

/// Whether the hard signal is sent: something of the tree is still there.
pub fn must_kill(group_exists: bool, root_exists: bool, survivors_exist: &Vec<bool>) -> (r: bool)
    ensures
        r == (group_exists || root_exists || survivors_exist@.contains(true)),
{
    let mut i: usize = 0;
    while i < survivors_exist.len()
        invariant
            i <= survivors_exist.len(),
            forall|k: int| 0 <= k < i ==> !#[trigger] survivors_exist@[k],
        decreases survivors_exist.len() - i,
    {
        if survivors_exist[i] {
            assert(survivors_exist@[i as int]);
            return true;
        }
        i += 1;
    }
    group_exists || root_exists
}

} // verus!
