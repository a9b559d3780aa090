//! What a patch does to a text: which lines a hunk replaces, and what is left alone.

use vstd::prelude::*;

use crate::diff;
use crate::diff::LineView;
use crate::patch;
use crate::patch::UpdateHunkView;
use crate::text;

verus! {

/// The text of a line of a hunk.
pub open spec fn line_text(l: LineView) -> Seq<char> {
    match l {
        LineView::Context(s) => s,
        LineView::Remove(s) => s,
        LineView::Add(s) => s,
    }
}

/// The texts of the lines of a hunk that the file must hold: all but the added ones.
pub open spec fn old_side(ls: Seq<LineView>) -> Seq<Seq<char>> {
    ls.filter(|l: LineView| !(l is Add)).map_values(|l: LineView| line_text(l))
}

/// The texts of the lines of a hunk that the file is to hold: all but the removed ones.
pub open spec fn new_side(ls: Seq<LineView>) -> Seq<Seq<char>> {
    ls.filter(|l: LineView| !(l is Remove)).map_values(|l: LineView| line_text(l))
}

/// The two sides of a hunk are its lines, in their order, without the added and without the
/// removed ones.
pub proof fn sides_leave_out_one_kind_of_line(ls: Seq<LineView>)
    ensures
        diff::pattern_view(ls) == old_side(ls),
        diff::replacement_view(ls) == new_side(ls),
    decreases ls.len(),
{
    reveal(Seq::filter);
    if ls.len() > 0 {
        let front = ls.drop_last();
        sides_leave_out_one_kind_of_line(front);
        let p = |l: LineView| !(l is Add);
        let q = |l: LineView| !(l is Remove);
        assert(diff::pattern_view(ls) =~= old_side(ls));
        assert(diff::replacement_view(ls) =~= new_side(ls));
    } else {
        assert(diff::pattern_view(ls) =~= old_side(ls));
        assert(diff::replacement_view(ls) =~= new_side(ls));
    }
}

/// Whether lines are the same, white space at their ends aside.
pub open spec fn alike(a: Seq<Seq<char>>, b: Seq<Seq<char>>) -> bool {
    a.len() == b.len() && forall|i: int|
        0 <= i < a.len() ==> text::trim_end_view(#[trigger] a[i]) == text::trim_end_view(b[i])
}

/// Whether a block of lines stands in others from a line on.
pub open spec fn stands(ls: Seq<Seq<char>>, block: Seq<Seq<char>>, at: int) -> bool {
    0 <= at && at + block.len() <= ls.len() && alike(ls.subrange(at, at + block.len()), block)
}

/// A block is looked for line by line, white space at the ends of lines aside.
pub proof fn blocks_are_compared_by_their_lines(
    ls: Seq<Seq<char>>,
    block: Seq<Seq<char>>,
    at: int,
)
    ensures
        diff::block_at(ls, block, at) <==> stands(ls, block, at),
{
    if stands(ls, block, at) {
        let part = ls.subrange(at, at + block.len());
        assert forall|i: int| 0 <= i < block.len() implies text::trim_end_view(ls[at + i])
            == text::trim_end_view(#[trigger] block[i]) by {
            assert(part[i] == ls[at + i]);
        }
    }
    if diff::block_at(ls, block, at) {
        let part = ls.subrange(at, at + block.len());
        assert forall|i: int| 0 <= i < part.len() implies text::trim_end_view(#[trigger] part[i])
            == text::trim_end_view(block[i]) by {
            assert(text::trim_end_view(ls[at + i]) == text::trim_end_view(block[i]));
        }
    }
}

/// A hunk that is pinned to the end of the file is placed at the end, and there only: it is
/// found exactly where the last lines of the file are its old side, at or after the point from
/// which it is looked for.
pub proof fn pinned_hunks_end_the_file(
    ls: Seq<Seq<char>>,
    cursor: int,
    hunk: UpdateHunkView,
    no: nat,
)
    requires
        hunk.at_eof,
        old_side(hunk.lines).len() > 0,
    ensures
        ({
            let n = old_side(hunk.lines).len();
            let at = ls.len() - n;
            &&& patch::hunk_range(ls, cursor, hunk, no) is Ok <==> stands(
                ls,
                old_side(hunk.lines),
                at,
            ) && cursor <= at
            &&& patch::hunk_range(ls, cursor, hunk, no) matches Ok((a, b)) ==> a == at && b
                == ls.len()
        }),
{
    sides_leave_out_one_kind_of_line(hunk.lines);
    blocks_are_compared_by_their_lines(
        ls,
        old_side(hunk.lines),
        ls.len() - old_side(hunk.lines).len(),
    );
}

/// A hunk with an old side that is not pinned is placed at the one line, at or after the point
/// from which it is looked for, at which its old side stands.
pub proof fn hunks_are_placed_where_they_stand_once(
    ls: Seq<Seq<char>>,
    cursor: int,
    hunk: UpdateHunkView,
    no: nat,
    at: int,
)
    requires
        !hunk.at_eof,
        old_side(hunk.lines).len() > 0,
        0 <= cursor <= at,
        stands(ls, old_side(hunk.lines), at),
        forall|p: int|
            cursor <= p && p != at ==> !#[trigger] stands(ls, old_side(hunk.lines), p),
    ensures
        patch::hunk_range(ls, cursor, hunk, no) == Ok::<(int, int), Seq<char>>(
            (at, at + old_side(hunk.lines).len()),
        ),
{
    let block = old_side(hunk.lines);
    let last = ls.len() - block.len();
    sides_leave_out_one_kind_of_line(hunk.lines);
    blocks_are_compared_by_their_lines(ls, block, at);
    lemma_one_position(ls, block, cursor, last, at);
}

proof fn lemma_one_position(
    ls: Seq<Seq<char>>,
    block: Seq<Seq<char>>,
    from: int,
    to: int,
    at: int,
)
    requires
        from <= at <= to,
        stands(ls, block, at),
        forall|p: int| from <= p <= to && p != at ==> !#[trigger] stands(ls, block, p),
    ensures
        diff::match_positions(ls, block, from, to) == seq![at],
{
    let found = diff::match_positions(ls, block, from, to);
    blocks_are_compared_by_their_lines(ls, block, at);
    diff::lemma_positions_complete(ls, block, from, to, at);
    diff::lemma_positions_hold(ls, block, from, to);
    lemma_positions_rise(ls, block, from, to);
    assert forall|k: int| 0 <= k < found.len() implies found[k] == at by {
        let p = found[k];
        blocks_are_compared_by_their_lines(ls, block, p);
        assert(stands(ls, block, p));
    }
    if found.len() > 1 {
        assert(found[0] < found[1]);
    }
    assert(found =~= seq![at]);
}

pub proof fn lemma_positions_rise(ls: Seq<Seq<char>>, block: Seq<Seq<char>>, from: int, to: int)
    ensures
        forall|i: int, j: int|
            0 <= i < j < diff::match_positions(ls, block, from, to).len()
                ==> #[trigger] diff::match_positions(ls, block, from, to)[i]
                < #[trigger] diff::match_positions(ls, block, from, to)[j],
    decreases to + 1 - from,
{
    if from <= to {
        lemma_positions_rise(ls, block, from + 1, to);
        diff::lemma_positions_hold(ls, block, from + 1, to);
        let rest = diff::match_positions(ls, block, from + 1, to);
        let all = diff::match_positions(ls, block, from, to);
        if diff::block_at(ls, block, from) {
            assert(all == seq![from] + rest);
            assert forall|i: int, j: int| 0 <= i < j < all.len() implies #[trigger] all[i]
                < #[trigger] all[j] by {
                assert(all[j] == rest[j - 1]);
                if i > 0 {
                    assert(all[i] == rest[i - 1]);
                }
            }
        }
    }
}

/// A hunk with an old side that stands nowhere, or at more than one line, at or after the point
/// from which it is looked for, is not placed.
pub proof fn lost_and_doubtful_hunks_are_refused(
    ls: Seq<Seq<char>>,
    cursor: int,
    hunk: UpdateHunkView,
    no: nat,
)
    requires
        !hunk.at_eof,
        old_side(hunk.lines).len() > 0,
        0 <= cursor,
        (forall|p: int| cursor <= p ==> !#[trigger] stands(ls, old_side(hunk.lines), p)) || (
        exists|p: int, q: int|
            cursor <= p < q && #[trigger] stands(ls, old_side(hunk.lines), p) && #[trigger] stands(
                ls,
                old_side(hunk.lines),
                q,
            )),
    ensures
        patch::hunk_range(ls, cursor, hunk, no) is Err,
{
    let block = old_side(hunk.lines);
    let last = ls.len() - block.len();
    sides_leave_out_one_kind_of_line(hunk.lines);
    if block.len() <= ls.len() {
        let found = diff::match_positions(ls, block, cursor, last);
        diff::lemma_positions_hold(ls, block, cursor, last);
        if found.len() == 1 {
            let at = found[0];
            blocks_are_compared_by_their_lines(ls, block, at);
            assert(stands(ls, block, at));
            let (p, q) = choose|p: int, q: int|
                cursor <= p < q && #[trigger] stands(ls, block, p) && #[trigger] stands(
                    ls,
                    block,
                    q,
                );
            blocks_are_compared_by_their_lines(ls, block, p);
            blocks_are_compared_by_their_lines(ls, block, q);
            diff::lemma_positions_complete(ls, block, cursor, last, p);
            diff::lemma_positions_complete(ls, block, cursor, last, q);
        }
    }
}

/// Lines that are only added go to the end of the file where the hunk is pinned to it, else behind
/// the hunk's anchor, else into a file without lines; anywhere else there is no place for them.
pub proof fn bare_additions_need_a_place(
    ls: Seq<Seq<char>>,
    cursor: int,
    hunk: UpdateHunkView,
    no: nat,
)
    requires
        old_side(hunk.lines).len() == 0,
    ensures
        hunk.at_eof ==> patch::hunk_range(ls, cursor, hunk, no) == Ok::<(int, int), Seq<char>>(
            (ls.len() as int, ls.len() as int),
        ),
        !hunk.at_eof && hunk.anchor is Some ==> patch::hunk_range(ls, cursor, hunk, no) == Ok::<
            (int, int),
            Seq<char>,
        >((cursor, cursor)),
        !hunk.at_eof && hunk.anchor is None && ls.len() == 0 ==> patch::hunk_range(
            ls,
            cursor,
            hunk,
            no,
        ) == Ok::<(int, int), Seq<char>>((0, 0)),
        !hunk.at_eof && hunk.anchor is None && ls.len() > 0 ==> patch::hunk_range(
            ls,
            cursor,
            hunk,
            no,
        ) is Err,
{
    sides_leave_out_one_kind_of_line(hunk.lines);
}

proof fn lemma_anchor_positions(
    ls: Seq<Seq<char>>,
    anchor: Seq<char>,
    from: int,
    loose: bool,
)
    requires
        0 <= from,
    ensures
        ({
            let found = patch::anchor_positions(ls, anchor, from, loose);
            &&& forall|k: int|
                0 <= k < found.len() ==> from <= #[trigger] found[k] < ls.len() && patch::is_anchor(
                    ls[found[k]],
                    anchor,
                    loose,
                )
            &&& forall|i: int|
                from <= i < ls.len() && patch::is_anchor(#[trigger] ls[i], anchor, loose)
                    ==> found.contains(i)
            &&& forall|i: int, j: int|
                0 <= i < j < found.len() ==> #[trigger] found[i] < #[trigger] found[j]
        }),
    decreases ls.len() - from,
{
    let found = patch::anchor_positions(ls, anchor, from, loose);
    if from < ls.len() {
        lemma_anchor_positions(ls, anchor, from + 1, loose);
        let rest = patch::anchor_positions(ls, anchor, from + 1, loose);
        if patch::is_anchor(ls[from], anchor, loose) {
            assert(found == seq![from] + rest);
            assert(found[0] == from);
            assert forall|i: int|
                from <= i < ls.len() && patch::is_anchor(#[trigger] ls[i], anchor, loose) implies
                found.contains(i) by {
                if i > from {
                    let k = choose|k: int| 0 <= k < rest.len() && rest[k] == i;
                    assert(found[k + 1] == i);
                }
            }
            assert forall|i: int, j: int| 0 <= i < j < found.len() implies #[trigger] found[i]
                < #[trigger] found[j] by {
                assert(found[j] == rest[j - 1]);
                if i > 0 {
                    assert(found[i] == rest[i - 1]);
                }
            }
        }
    }
}

/// The search for a hunk begins behind the one line that is its anchor: one that is the same but
/// for white space at its end, or, where there is none, one that is the same but for white space
/// at both ends.
pub proof fn hunks_are_looked_for_behind_their_anchor(
    ls: Seq<Seq<char>>,
    cursor: int,
    anchor: Seq<char>,
    no: nat,
    at: int,
)
    requires
        0 <= cursor <= at < ls.len(),
        (text::trim_end_view(ls[at]) == text::trim_end_view(anchor) && forall|i: int|
            cursor <= i < ls.len() && i != at ==> text::trim_end_view(#[trigger] ls[i])
                != text::trim_end_view(anchor)) || (text::trim_view(ls[at]) == text::trim_view(
            anchor,
        ) && (forall|i: int|
            cursor <= i < ls.len() ==> text::trim_end_view(#[trigger] ls[i])
                != text::trim_end_view(anchor)) && (forall|i: int|
            cursor <= i < ls.len() && i != at ==> text::trim_view(#[trigger] ls[i])
                != text::trim_view(anchor))),
    ensures
        patch::anchored(ls, cursor, Some(anchor), no) == Ok::<int, Seq<char>>(at + 1),
{
    lemma_anchor_positions(ls, anchor, cursor, false);
    lemma_anchor_positions(ls, anchor, cursor, true);
    let exact = patch::anchor_positions(ls, anchor, cursor, false);
    let loose = patch::anchor_positions(ls, anchor, cursor, true);
    if text::trim_end_view(ls[at]) == text::trim_end_view(anchor) {
        assert(patch::is_anchor(ls[at], anchor, false));
        assert(exact.contains(at));
        if exact.len() > 1 {
            assert(exact[0] < exact[1]);
            assert(patch::is_anchor(ls[exact[0]], anchor, false));
            assert(patch::is_anchor(ls[exact[1]], anchor, false));
        }
    } else {
        if exact.len() > 0 {
            assert(patch::is_anchor(ls[exact[0]], anchor, false));
        }
        assert(patch::is_anchor(ls[at], anchor, true));
        assert(loose.contains(at));
        if loose.len() > 1 {
            assert(loose[0] < loose[1]);
            assert(patch::is_anchor(ls[loose[0]], anchor, true));
            assert(patch::is_anchor(ls[loose[1]], anchor, true));
        }
    }
}

/// An anchor that no line is, or more than one line, stops a hunk; without an anchor the search
/// begins where it stands.
pub proof fn lost_and_doubtful_anchors_are_refused(
    ls: Seq<Seq<char>>,
    cursor: int,
    anchor: Seq<char>,
    no: nat,
)
    requires
        0 <= cursor,
    ensures
        patch::anchored(ls, cursor, None, no) == Ok::<int, Seq<char>>(cursor),
        (forall|i: int|
            cursor <= i < ls.len() ==> text::trim_view(#[trigger] ls[i]) != text::trim_view(anchor)
                && text::trim_end_view(ls[i]) != text::trim_end_view(anchor)) ==> patch::anchored(
            ls,
            cursor,
            Some(anchor),
            no,
        ) is Err,
        (exists|i: int, j: int|
            cursor <= i < j < ls.len() && text::trim_end_view(#[trigger] ls[i])
                == text::trim_end_view(anchor) && text::trim_end_view(#[trigger] ls[j])
                == text::trim_end_view(anchor)) ==> patch::anchored(
            ls,
            cursor,
            Some(anchor),
            no,
        ) is Err,
{
    lemma_anchor_positions(ls, anchor, cursor, false);
    lemma_anchor_positions(ls, anchor, cursor, true);
    let exact = patch::anchor_positions(ls, anchor, cursor, false);
    let loose = patch::anchor_positions(ls, anchor, cursor, true);
    if forall|i: int|
        cursor <= i < ls.len() ==> text::trim_view(#[trigger] ls[i]) != text::trim_view(anchor)
            && text::trim_end_view(ls[i]) != text::trim_end_view(anchor) {
        if exact.len() > 0 {
            assert(patch::is_anchor(ls[exact[0]], anchor, false));
        }
        if loose.len() > 0 {
            assert(patch::is_anchor(ls[loose[0]], anchor, true));
        }
    }
    if exists|i: int, j: int|
        cursor <= i < j < ls.len() && text::trim_end_view(#[trigger] ls[i]) == text::trim_end_view(
            anchor,
        ) && text::trim_end_view(#[trigger] ls[j]) == text::trim_end_view(anchor) {
        let (i, j) = choose|i: int, j: int|
            cursor <= i < j < ls.len() && text::trim_end_view(#[trigger] ls[i])
                == text::trim_end_view(anchor) && text::trim_end_view(#[trigger] ls[j])
                == text::trim_end_view(anchor);
        assert(patch::is_anchor(ls[i], anchor, false) && patch::is_anchor(ls[j], anchor, false));
        assert(exact.contains(i) && exact.contains(j));
    }
}

/// Gaps with blocks between them: the first gap, the first block, the second gap, and so on.
pub open spec fn woven(gaps: Seq<Seq<Seq<char>>>, blocks: Seq<Seq<Seq<char>>>) -> Seq<Seq<char>>
    decreases blocks.len(),
{
    if blocks.len() == 0 {
        gaps[0]
    } else {
        gaps[0] + blocks[0] + woven(gaps.drop_first(), blocks.drop_first())
    }
}

/// The new sides of hunks.
pub open spec fn new_sides(hunks: Seq<UpdateHunkView>) -> Seq<Seq<Seq<char>>> {
    Seq::new(hunks.len(), |i: int| new_side(hunks[i].lines))
}

/// Whether one of the lines is an anchor, white space at its ends aside.
pub open spec fn holds_anchor(ls: Seq<Seq<char>>, anchor: Seq<char>) -> bool {
    exists|j: int|
        0 <= j < ls.len() && text::trim_view(#[trigger] ls[j]) == text::trim_view(anchor)
}

/// Whether gaps and blocks fit hunks: each block is the old side of its hunk, the anchor of a hunk
/// stands in the gap before it, and nothing comes between a pinned hunk and what follows it.
pub open spec fn fit(
    gaps: Seq<Seq<Seq<char>>>,
    blocks: Seq<Seq<Seq<char>>>,
    hunks: Seq<UpdateHunkView>,
) -> bool {
    &&& blocks.len() == hunks.len()
    &&& gaps.len() == hunks.len() + 1
    &&& forall|i: int|
        0 <= i < hunks.len() ==> {
            &&& alike(#[trigger] blocks[i], old_side(hunks[i].lines))
            &&& hunks[i].anchor matches Some(a) ==> holds_anchor(gaps[i], a)
            &&& hunks[i].at_eof ==> gaps[i + 1].len() == 0
        }
}

proof fn lemma_woven_front(
    p: Seq<Seq<char>>,
    m: Seq<Seq<char>>,
    gaps: Seq<Seq<Seq<char>>>,
    blocks: Seq<Seq<Seq<char>>>,
)
    requires
        gaps.len() > 0,
        gaps[0] == p + m,
    ensures
        woven(gaps, blocks) == p + woven(gaps.update(0, m), blocks),
{
    let other = gaps.update(0, m);
    if blocks.len() == 0 {
    } else {
        assert(other.drop_first() =~= gaps.drop_first());
        let rest = woven(gaps.drop_first(), blocks.drop_first());
        assert(p + m + blocks[0] + rest =~= p + (m + blocks[0] + rest));
    }
}

proof fn lemma_trims_agree(a: Seq<char>, b: Seq<char>)
    requires
        text::trim_end_view(a) == text::trim_end_view(b),
    ensures
        text::trim_view(a) == text::trim_view(b),
{
    lemma_trim_both_ways(a);
    lemma_trim_both_ways(b);
}

proof fn lemma_trim_both_ways(a: Seq<char>)
    ensures
        text::trim_view(a) == text::trim_start_view(text::trim_end_view(a)),
    decreases a.len(),
{
    if a.len() > 0 && text::white(a[0]) {
        lemma_trim_both_ways(a.drop_first());
        lemma_end_of_first(a);
    } else if a.len() > 0 {
        lemma_end_keeps_first(a);
    }
}

/// White space at the front does not matter to that at the end.
proof fn lemma_end_of_first(a: Seq<char>)
    requires
        a.len() > 0,
        text::white(a[0]),
    ensures
        text::trim_start_view(text::trim_end_view(a)) == text::trim_start_view(
            text::trim_end_view(a.drop_first()),
        ),
    decreases a.len(),
{
    let rest = a.drop_first();
    if rest.len() == 0 {
        assert(a.drop_last() =~= Seq::empty());
        assert(rest =~= Seq::empty());
        reveal_with_fuel(text::trim_end_view, 3);
    } else if text::white(a.last()) {
        assert(rest.last() == a.last());
        assert(rest.drop_last() =~= a.drop_last().drop_first());
        lemma_end_of_first(a.drop_last());
    } else {
        assert(rest.last() == a.last());
    }
}

proof fn lemma_end_keeps_first(a: Seq<char>)
    requires
        a.len() > 0,
        !text::white(a[0]),
    ensures
        text::trim_end_view(a).len() > 0,
        text::trim_end_view(a)[0] == a[0],
        text::trim_start_view(text::trim_end_view(a)) == text::trim_end_view(a),
    decreases a.len(),
{
    if text::white(a.last()) {
        lemma_end_keeps_first(a.drop_last());
    }
}

proof fn lemma_anchor_is_before(
    ls: Seq<Seq<char>>,
    cursor: int,
    anchor: Option<Seq<char>>,
    no: nat,
    start: int,
)
    requires
        0 <= cursor <= ls.len(),
        patch::anchored(ls, cursor, anchor, no) == Ok::<int, Seq<char>>(start),
    ensures
        cursor <= start <= ls.len(),
        anchor matches Some(a) ==> exists|j: int|
            cursor <= j < start && text::trim_view(#[trigger] ls[j]) == text::trim_view(a),
{
    if let Some(a) = anchor {
        lemma_anchor_positions(ls, a, cursor, false);
        lemma_anchor_positions(ls, a, cursor, true);
        let exact = patch::anchor_positions(ls, a, cursor, false);
        let j = start - 1;
        if exact.len() > 0 {
            assert(patch::is_anchor(ls[exact[0]], a, false));
            lemma_trims_agree(ls[j], a);
        } else {
            let loose = patch::anchor_positions(ls, a, cursor, true);
            assert(patch::is_anchor(ls[loose[0]], a, true));
        }
        assert(cursor <= j < start && text::trim_view(ls[j]) == text::trim_view(a));
    }
}

proof fn lemma_range_stands(ls: Seq<Seq<char>>, cursor: int, hunk: UpdateHunkView, no: nat, a: int, b: int)
    requires
        0 <= cursor <= ls.len(),
        patch::hunk_range(ls, cursor, hunk, no) == Ok::<(int, int), Seq<char>>((a, b)),
    ensures
        cursor <= a <= b <= ls.len(),
        alike(ls.subrange(a, b), old_side(hunk.lines)),
        hunk.at_eof ==> b == ls.len(),
{
    let block = old_side(hunk.lines);
    sides_leave_out_one_kind_of_line(hunk.lines);
    if block.len() == 0 {
        bare_additions_need_a_place(ls, cursor, hunk, no);
        assert(ls.subrange(a, b).len() == 0);
    } else {
        patch::hunk_changes_only_its_block(ls, cursor, hunk, no);
        blocks_are_compared_by_their_lines(ls, block, a);
        if hunk.at_eof {
            pinned_hunks_end_the_file(ls, cursor, hunk, no);
        } else {
            diff::lemma_positions_hold(ls, block, cursor, ls.len() - block.len());
        }
    }
}

proof fn lemma_rewritten(ls: Seq<Seq<char>>, cursor: int, hunks: Seq<UpdateHunkView>, k: int) -> (r: (
    Seq<Seq<Seq<char>>>,
    Seq<Seq<Seq<char>>>,
))
    requires
        0 <= cursor <= ls.len(),
        0 <= k <= hunks.len(),
        patch::hunks_from(ls, cursor, hunks, k) is Ok,
    ensures
        fit(r.0, r.1, hunks.skip(k)),
        r.0[0].len() >= cursor,
        r.0[0].take(cursor) == ls.take(cursor),
        woven(r.0, r.1) == ls,
        woven(r.0, new_sides(hunks.skip(k))) == patch::hunks_from(ls, cursor, hunks, k)->Ok_0,
        k < hunks.len() && hunks[k].anchor is Some ==> exists|j: int|
            cursor <= j < r.0[0].len() && text::trim_view(#[trigger] r.0[0][j]) == text::trim_view(
                hunks[k].anchor->0,
            ),
    decreases hunks.len() - k,
{
    let out = patch::hunks_from(ls, cursor, hunks, k)->Ok_0;
    let left = hunks.skip(k);
    if k >= hunks.len() {
        let gaps = seq![ls];
        let none = Seq::<Seq<Seq<char>>>::empty();
        assert(new_sides(left) =~= none);
        (gaps, none)
    } else {
        let hunk = hunks[k];
        let no = (k + 1) as nat;
        let start = patch::anchored(ls, cursor, hunk.anchor, no)->Ok_0;
        lemma_anchor_is_before(ls, cursor, hunk.anchor, no, start);
        let (a, b) = patch::hunk_range(ls, start, hunk, no)->Ok_0;
        lemma_range_stands(ls, start, hunk, no, a, b);
        sides_leave_out_one_kind_of_line(hunk.lines);
        let fresh = new_side(hunk.lines);
        let next = text::splice_view(ls, a, b, fresh);
        let c = a + fresh.len();
        let (gaps, blocks) = lemma_rewritten(next, c, hunks, k + 1);
        let after = hunks.skip(k + 1);
        assert(left =~= seq![hunk] + after);
        let p = ls.take(a) + fresh;
        assert(next.take(c) =~= p);
        let m = gaps[0].skip(c);
        assert(gaps[0] =~= p + m) by {
            assert(gaps[0].take(c) == p);
            assert(gaps[0] =~= gaps[0].take(c) + gaps[0].skip(c));
        }
        lemma_woven_front(p, m, gaps, blocks);
        lemma_woven_front(p, m, gaps, new_sides(after));
        let inner = gaps.update(0, m);
        let tail = woven(inner, blocks);
        assert(next == p + tail);
        assert(tail =~= ls.skip(b)) by {
            assert(next.skip(c) =~= tail);
            assert(next.skip(c) =~= ls.skip(b));
        }
        let all_gaps = seq![ls.take(a)] + inner;
        let all_blocks = seq![ls.subrange(a, b)] + blocks;
        assert(all_gaps.drop_first() =~= inner);
        assert(all_blocks.drop_first() =~= blocks);
        assert(woven(all_gaps, all_blocks) =~= ls);
        let news = new_sides(left);
        assert(news.drop_first() =~= new_sides(after));
        assert(news[0] == fresh);
        assert(woven(all_gaps, news) =~= p + woven(inner, new_sides(after)));
        assert(all_gaps[0].take(cursor) =~= ls.take(cursor));
        if let Some(x) = hunk.anchor {
            let j = choose|j: int|
                cursor <= j < start && text::trim_view(#[trigger] ls[j]) == text::trim_view(x);
            assert(all_gaps[0][j] == ls[j]);
        }
        assert forall|i: int| 0 <= i < left.len() implies {
            &&& alike(#[trigger] all_blocks[i], old_side(left[i].lines))
            &&& left[i].anchor matches Some(x) ==> holds_anchor(all_gaps[i], x)
            &&& left[i].at_eof ==> all_gaps[i + 1].len() == 0
        } by {
            if i == 0 {
                if let Some(x) = hunk.anchor {
                    let j = choose|j: int|
                        cursor <= j < start && text::trim_view(#[trigger] ls[j]) == text::trim_view(x);
                    assert(text::trim_view(all_gaps[0][j]) == text::trim_view(x));
                }
                if hunk.at_eof {
                    assert(tail.len() == 0);
                    lemma_woven_empty(inner, blocks);
                    assert(all_gaps[1] == m);
                }
            } else {
                assert(all_blocks[i] == blocks[i - 1]);
                assert(left[i] == after[i - 1]);
                assert(alike(blocks[i - 1], old_side(after[i - 1].lines)));
                assert(all_gaps[i + 1] == gaps[i]);
                if i == 1 {
                    if let Some(x) = after[0].anchor {
                        let j = choose|j: int|
                            c <= j < gaps[0].len() && text::trim_view(#[trigger] gaps[0][j])
                                == text::trim_view(x);
                        assert(m[j - c] == gaps[0][j]);
                        assert(text::trim_view(all_gaps[1][j - c]) == text::trim_view(x));
                    }
                } else {
                    assert(all_gaps[i] == gaps[i - 1]);
                }
            }
        }
        (all_gaps, all_blocks)
    }
}

proof fn lemma_woven_empty(gaps: Seq<Seq<Seq<char>>>, blocks: Seq<Seq<Seq<char>>>)
    requires
        woven(gaps, blocks).len() == 0,
    ensures
        gaps[0].len() == 0,
{
}

/// What an update leaves of a text: the lines of the text fall into gaps with the old sides of the
/// hunks between them, in the order of the hunks, and the new text has the same gaps with the new
/// sides between them. It ends with a line feed where the old one does.
pub proof fn updates_replace_old_sides_by_new_ones(content: Seq<char>, hunks: Seq<UpdateHunkView>)
    ensures
        patch::updated(content, hunks) matches Ok(out) ==> exists|
            gaps: Seq<Seq<Seq<char>>>,
            blocks: Seq<Seq<Seq<char>>>,
        |
            {
                &&& #[trigger] fit(gaps, blocks, hunks)
                &&& woven(gaps, blocks) == text::lines_view(content)
                &&& out == text::join_view(woven(gaps, new_sides(hunks)), "\n"@) + (if text::ends(
                    content,
                    "\n"@,
                ) {
                    "\n"@
                } else {
                    Seq::empty()
                })
            },
{
    if let Ok(out) = patch::updated(content, hunks) {
        let ls = text::lines_view(content);
        let (gaps, blocks) = lemma_rewritten(ls, 0, hunks, 0);
        assert(hunks.skip(0) =~= hunks);
        assert(fit(gaps, blocks, hunks));
        let joined = text::join_view(woven(gaps, new_sides(hunks)), "\n"@);
        assert(joined + Seq::<char>::empty() =~= joined);
    }
}

/// The message of a hunk that cannot be placed begins with its number.
pub proof fn refused_hunks_are_named(ls: Seq<Seq<char>>, cursor: int, hunk: UpdateHunkView, no: nat)
    ensures
        patch::hunk_range(ls, cursor, hunk, no) matches Err(e) ==> text::starts(
            e,
            "hunk "@ + text::dec(no),
        ),
        patch::anchored(ls, cursor, hunk.anchor, no) matches Err(e) ==> text::starts(
            e,
            "hunk "@ + text::dec(no),
        ),
{
    let head = "hunk "@ + text::dec(no);
    if let Err(e) = patch::hunk_range(ls, cursor, hunk, no) {
        assert(e.subrange(0, head.len() as int) =~= head);
    }
    if let Err(e) = patch::anchored(ls, cursor, hunk.anchor, no) {
        assert(e.subrange(0, head.len() as int) =~= head);
    }
}

} // verus!
