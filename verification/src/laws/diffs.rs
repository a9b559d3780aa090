//! What a unified diff does to a text: where its hunks go, and how it is read.

use vstd::prelude::*;

use crate::diff;
use crate::diff::{HunkView, LineView};
use crate::laws::envelopes;
use crate::laws::patches;
use crate::laws::texts;
use crate::text;

verus! {

proof fn lemma_window(ls: Seq<Seq<char>>, block: Seq<Seq<char>>, target: int, p: int)
    requires
        0 <= target,
        patches::stands(ls, block, p),
        target - 3 <= p <= target + 3,
    ensures
        ({
            let (start, end) = diff::window(ls, block, target);
            start <= p <= end
        }),
{
}

proof fn lemma_in_window(ls: Seq<Seq<char>>, block: Seq<Seq<char>>, target: int, p: int)
    requires
        0 <= target,
        ({
            let (start, end) = diff::window(ls, block, target);
            start <= p <= end
        }),
    ensures
        target - 3 <= p <= target + 3,
{
}

/// A block that stands at exactly one line no more than three lines above or below the stated one
/// is found there.
pub proof fn blocks_are_found_within_three_lines(
    ls: Seq<Seq<char>>,
    block: Seq<Seq<char>>,
    target: int,
    at: int,
)
    requires
        0 <= target,
        target - 3 <= at <= target + 3,
        patches::stands(ls, block, at),
        forall|p: int|
            target - 3 <= p <= target + 3 && p != at ==> !#[trigger] patches::stands(ls, block, p),
    ensures
        diff::place(ls, block, target) == Ok::<int, Seq<char>>(at),
{
    let (start, end) = diff::window(ls, block, target);
    let found = diff::match_positions(ls, block, start, end);
    lemma_window(ls, block, target, at);
    patches::blocks_are_compared_by_their_lines(ls, block, at);
    diff::lemma_positions_complete(ls, block, start, end, at);
    diff::lemma_positions_hold(ls, block, start, end);
    patches::lemma_positions_rise(ls, block, start, end);
    assert forall|k: int| 0 <= k < found.len() implies #[trigger] found[k] == at by {
        patches::blocks_are_compared_by_their_lines(ls, block, found[k]);
        lemma_in_window(ls, block, target, found[k]);
        assert(patches::stands(ls, block, found[k]));
    }
    if found.len() > 1 {
        assert(found[0] < found[1]);
    }
}

/// Where a block is found it stands, no more than three lines from the stated one; one that stands
/// nowhere there, or at two lines, is not found.
pub proof fn blocks_are_found_nowhere_else(
    ls: Seq<Seq<char>>,
    block: Seq<Seq<char>>,
    target: int,
)
    requires
        0 <= target,
    ensures
        diff::place(ls, block, target) matches Ok(at) ==> {
            &&& patches::stands(ls, block, at)
            &&& target - 3 <= at <= target + 3
            &&& forall|p: int|
                target - 3 <= p <= target + 3 && p != at ==> !#[trigger] patches::stands(
                    ls,
                    block,
                    p,
                )
        },
        (forall|p: int|
            target - 3 <= p <= target + 3 ==> !#[trigger] patches::stands(ls, block, p))
            ==> diff::place(ls, block, target) is Err,
{
    let (start, end) = diff::window(ls, block, target);
    let found = diff::match_positions(ls, block, start, end);
    diff::lemma_positions_hold(ls, block, start, end);
    if let Ok(at) = diff::place(ls, block, target) {
        assert(found[0] == at);
        patches::blocks_are_compared_by_their_lines(ls, block, at);
        lemma_in_window(ls, block, target, at);
        assert forall|p: int|
            target - 3 <= p <= target + 3 && p != at implies !#[trigger] patches::stands(
            ls,
            block,
            p,
        ) by {
            if patches::stands(ls, block, p) {
                patches::blocks_are_compared_by_their_lines(ls, block, p);
                lemma_window(ls, block, target, p);
                diff::place_is_unique(ls, block, target, p);
            }
        }
    }
}

/// The line that a hunk is meant for, counted from zero.
pub open spec fn meant_for(h: HunkView) -> int {
    if h.old_start > 0 {
        h.old_start - 1
    } else {
        0
    }
}

/// A text with its lines from `at` on, as many as a hunk's old side has, replaced by its new side.
pub open spec fn replaced(ls: Seq<Seq<char>>, h: HunkView, at: int) -> Seq<Seq<char>> {
    ls.take(at) + patches::new_side(h.lines) + ls.skip(
        at + patches::old_side(h.lines).len() as int,
    )
}

/// Lines put together to a text that ends with a line feed where another does.
pub open spec fn as_text(ls: Seq<Seq<char>>, content: Seq<char>) -> Seq<char> {
    text::join_view(ls, "\n"@) + (if text::ends(content, "\n"@) {
        "\n"@
    } else {
        Seq::empty()
    })
}

/// A diff of one hunk is applied exactly where the hunk has an old side that is found, and then
/// replaces it by the new side.
pub proof fn one_hunk_replaces_its_old_side(content: Seq<char>, h: HunkView)
    ensures
        ({
            let ls = text::lines_view(content);
            let old = patches::old_side(h.lines);
            let found = diff::place(ls, old, meant_for(h));
            &&& diff::patched(content, seq![h]) is Ok <==> old.len() > 0 && found is Ok
            &&& old.len() > 0 && found is Ok ==> diff::patched(content, seq![h]) == Ok::<
                Seq<char>,
                Seq<char>,
            >(as_text(replaced(ls, h, found->Ok_0), content))
        }),
{
    let hs = seq![h];
    let ls = text::lines_view(content);
    patches::sides_leave_out_one_kind_of_line(h.lines);
    reveal_with_fuel(diff::descending, 2);
    reveal_with_fuel(diff::order_with, 2);
    let order = diff::descending(hs, 1);
    assert(order =~= seq![0int]);
    reveal_with_fuel(diff::applied_from, 2);
    reveal_with_fuel(diff::overlap, 2);
    let old = patches::old_side(h.lines);
    let found = diff::place(ls, old, meant_for(h));
    if old.len() > 0 && found is Ok {
        let out = replaced(ls, h, found->Ok_0);
        let joined = text::join_view(out, "\n"@);
        assert(joined + Seq::<char>::empty() =~= joined);
    }
}

proof fn lemma_order_of_front(hs: Seq<HunkView>, h: HunkView, n: int)
    requires
        0 <= n <= hs.len(),
    ensures
        diff::descending(hs.push(h), n) == diff::descending(hs, n),
    decreases n,
{
    if n > 0 {
        lemma_order_of_front(hs, h, n - 1);
        let before = diff::descending(hs, n - 1);
        diff::hunks_are_applied_from_the_end(hs, n - 1);
        lemma_slot_of_front(hs, h, before, n - 1);
    }
}

proof fn lemma_slot_of_front(hs: Seq<HunkView>, h: HunkView, order: Seq<int>, i: int)
    requires
        0 <= i < hs.len(),
        forall|k: int| 0 <= k < order.len() ==> 0 <= #[trigger] order[k] < hs.len(),
    ensures
        diff::order_with(order, hs.push(h), i) == diff::order_with(order, hs, i),
    decreases order.len(),
{
    if order.len() > 0 {
        assert(0 <= order[order.len() - 1] < hs.len());
        lemma_slot_of_front(hs, h, order.drop_last(), i);
    }
}

proof fn lemma_front_order(hs: Seq<HunkView>, h: HunkView)
    requires
        forall|i: int| 0 <= i < hs.len() ==> (#[trigger] hs[i]).old_start < h.old_start,
    ensures
        diff::descending(hs.push(h), hs.len() as int + 1) == seq![hs.len() as int] + diff::descending(
            hs,
            hs.len() as int,
        ),
{
    let n = hs.len() as int;
    let all = hs.push(h);
    let before = diff::descending(hs, n);
    lemma_order_of_front(hs, h, n);
    diff::hunks_are_applied_from_the_end(hs, n);
    assert forall|q: int| 0 <= q < before.len() implies all[#[trigger] before[q]].old_start
        < all[n].old_start by {
        assert(all[before[q]] == hs[before[q]]);
    }
    diff::lemma_order_with(before, all, n, 0);
    assert(before.insert(0, n) =~= seq![n] + before);
}

proof fn lemma_tail_work(hs: Seq<HunkView>, h: HunkView, ls: Seq<Seq<char>>, k: int)
    requires
        0 <= k,
    ensures
        ({
            let n = hs.len() as int;
            let order = diff::descending(hs, n);
            let longer = seq![n] + order;
            &&& diff::overlap(hs.push(h), longer, k + 1) == diff::overlap(hs, order, k)
            &&& diff::applied_from(ls, hs.push(h), longer, k + 1) == diff::applied_from(
                ls,
                hs,
                order,
                k,
            )
        }),
    decreases hs.len() + 1 - k,
{
    let n = hs.len() as int;
    let order = diff::descending(hs, n);
    let longer = seq![n] + order;
    diff::hunks_are_applied_from_the_end(hs, n);
    if k < n {
        assert(longer[k + 1] == order[k]);
        assert(0 <= order[k] < n);
        assert(hs.push(h)[order[k]] == hs[order[k]]);
        if k + 1 < n {
            assert(longer[k + 2] == order[k + 1]);
            assert(0 <= order[k + 1] < n);
            assert(hs.push(h)[order[k + 1]] == hs[order[k + 1]]);
        }
        lemma_tail_work(hs, h, ls, k + 1);
        let hunk = hs[order[k]];
        let pattern = diff::pattern_view(hunk.lines);
        if pattern.len() > 0 && diff::place(ls, pattern, meant_for(hunk)) is Ok {
            let pos = diff::place(ls, pattern, meant_for(hunk))->Ok_0;
            lemma_tail_work(
                hs,
                h,
                text::splice_view(ls, pos, pos + pattern.len(), diff::replacement_view(hunk.lines)),
                k + 1,
            );
        }
    }
}

/// Hunks are applied from the last one to the first: a diff whose hunk `h` starts below all others
/// gives what the others give of a text with the lines that `h` alone leaves.
pub proof fn hunks_below_go_first(
    content: Seq<char>,
    hs: Seq<HunkView>,
    h: HunkView,
    between: Seq<char>,
)
    requires
        forall|i: int| 0 <= i < hs.len() ==> (#[trigger] hs[i]).old_start < h.old_start,
        diff::patched(content, hs.push(h)) is Ok,
        text::lines_view(between) == replaced(
            text::lines_view(content),
            h,
            diff::place(
                text::lines_view(content),
                patches::old_side(h.lines),
                meant_for(h),
            )->Ok_0,
        ),
        text::ends(between, "\n"@) == text::ends(content, "\n"@),
    ensures
        diff::patched(content, seq![h]) is Ok,
        diff::patched(content, hs.push(h)) == diff::patched(between, hs),
{
    let n = hs.len() as int;
    let all = hs.push(h);
    let ls = text::lines_view(content);
    let order = diff::descending(hs, n);
    let longer = seq![n] + order;
    lemma_front_order(hs, h);
    assert(all[longer[0]] == h);
    one_hunk_replaces_its_old_side(content, h);
    patches::sides_leave_out_one_kind_of_line(h.lines);
    let old = patches::old_side(h.lines);
    let pos = diff::place(ls, old, meant_for(h))->Ok_0;
    lemma_tail_work(hs, h, replaced(ls, h, pos), 0);
    assert(diff::overlap(all, longer, 1) is None);
}

/// Hunks whose old sides would overlap at their stated places are refused, wherever they stand in
/// the diff.
pub proof fn overlapping_hunks_are_refused(content: Seq<char>, hs: Seq<HunkView>, i: int, j: int)
    requires
        0 <= i < hs.len(),
        0 <= j < hs.len(),
        i != j,
        hs[i].old_start <= hs[j].old_start,
        hs[i].old_start + patches::old_side(hs[i].lines).len() > hs[j].old_start,
    ensures
        diff::patched(content, hs) is Err,
{
    if diff::patched(content, hs) is Ok {
        let n = hs.len() as int;
        let order = diff::descending(hs, n);
        diff::hunks_are_applied_from_the_end(hs, n);
        diff::lemma_all_in_order(hs, n, i);
        diff::lemma_all_in_order(hs, n, j);
        let p = choose|p: int| 0 <= p < order.len() && order[p] == i;
        let q = choose|q: int| 0 <= q < order.len() && order[q] == j;
        patches::sides_leave_out_one_kind_of_line(hs[i].lines);
        patches::sides_leave_out_one_kind_of_line(hs[j].lines);
        let s = diff::sorted(hs);
        diff::lemma_applied_fall(content, hs);
        assert(s[p] == hs[i] && s[q] == hs[j]);
        if p < q {
            assert(s[p].old_start > s[q].old_start);
        } else {
            assert(s[q].old_start > s[p].old_start);
            diff::lemma_no_overlap(hs, order, 0, p - 1);
            if q < p - 1 {
                assert(hs[order[q]].old_start >= hs[order[p - 1]].old_start);
            }
        }
    }
}

/// A hunk without an old side cannot be applied.
pub proof fn hunks_need_an_old_side(content: Seq<char>, hs: Seq<HunkView>, i: int)
    requires
        0 <= i < hs.len(),
        patches::old_side(hs[i].lines).len() == 0,
    ensures
        diff::patched(content, hs) is Err,
{
    if diff::patched(content, hs) is Ok {
        let n = hs.len() as int;
        let order = diff::descending(hs, n);
        diff::lemma_all_in_order(hs, n, i);
        let p = choose|p: int| 0 <= p < order.len() && order[p] == i;
        diff::lemma_applied_has_patterns(text::lines_view(content), hs, order, 0, p);
        patches::sides_leave_out_one_kind_of_line(hs[i].lines);
    }
}

/// A header names the line behind its first dash, up to a comma.
pub proof fn headers_name_their_line(n: nat, count: Seq<char>, other: Seq<char>, rest: Seq<char>)
    requires
        n <= usize::MAX,
        texts::solid(count),
        other.len() > 0,
        texts::solid(other),
    ensures
        diff::header_view("@@ -"@ + text::dec(n) + ","@ + count + " "@ + other + " "@ + rest)
            == Ok::<nat, Seq<char>>(n),
        diff::header_view("@@ -"@ + text::dec(n) + " "@ + other + " "@ + rest) == Ok::<
            nat,
            Seq<char>,
        >(n),
{
    lemma_header(n, ","@ + count, other, rest);
    lemma_header(n, Seq::empty(), other, rest);
    let d = text::dec(n);
    assert("@@ -"@ + d + ","@ + count + " "@ + other + " "@ + rest =~= "@@ -"@ + d + (","@ + count)
        + " "@ + other + " "@ + rest);
    assert("@@ -"@ + d + Seq::<char>::empty() =~= "@@ -"@ + d);
}

proof fn lemma_header(n: nat, tail: Seq<char>, other: Seq<char>, rest: Seq<char>)
    requires
        n <= usize::MAX,
        tail.len() == 0 || exists|count: Seq<char>|
            #[trigger] texts::solid(count) && tail == ","@ + count,
        other.len() > 0,
        texts::solid(other),
    ensures
        diff::header_view("@@ -"@ + text::dec(n) + tail + " "@ + other + " "@ + rest) == Ok::<
            nat,
            Seq<char>,
        >(n),
{
    reveal_strlit("@@ -");
    reveal_strlit("@@");
    reveal_strlit("-");
    reveal_strlit(" ");
    reveal_strlit(",");
    let d = text::dec(n);
    texts::decimals_have_their_value(n);
    texts::decimals_are_read_back(n, usize::MAX as nat);
    let line = "@@ -"@ + d + tail + " "@ + other + " "@ + rest;
    let range = "-"@ + d + tail;
    let last = other + " "@ + rest;
    assert(line =~= "@@"@ + seq![' '] + (range + seq![' '] + last));
    assert(texts::solid("@@"@));
    assert(texts::solid(range)) by {
        assert forall|i: int| 0 <= i < range.len() implies !text::white(#[trigger] range[i]) by {
            if 1 <= i < 1 + d.len() {
                assert(range[i] == d[i - 1]);
                assert(texts::is_digit(d[i - 1]));
            } else if i >= 1 + d.len() {
                let count = choose|count: Seq<char>|
                    #[trigger] texts::solid(count) && tail == ","@ + count;
                if i > 1 + d.len() {
                    assert(range[i] == count[i - 2 - d.len()]);
                }
            }
        }
    }
    texts::words_are_parted_by_white_space("@@"@, ' ', range + seq![' '] + last);
    texts::words_are_parted_by_white_space(range, ' ', last);
    texts::words_are_parted_by_white_space(other, ' ', rest);
    assert(last =~= other + seq![' '] + rest);
    let parts = text::words_view(line);
    assert(parts[1] == range);
    assert(parts.len() >= 3);
    let bare = d + tail;
    assert(range.drop_first() =~= bare);
    assert(bare[0] == d[0]);
    assert(texts::is_digit(d[0]));
    reveal_with_fuel(diff::drop_dashes, 3);
    assert(diff::drop_dashes(range) == bare);
    assert(!d.contains(',')) by {
        if d.contains(',') {
            let i = choose|i: int| 0 <= i < d.len() && d[i] == ',';
            assert(texts::is_digit(d[i]));
        }
    }
    if tail.len() == 0 {
        assert(bare =~= d);
        texts::texts_are_split_at_a_character(d, ',', Seq::empty());
    } else {
        let count = choose|count: Seq<char>|
            #[trigger] texts::solid(count) && tail == ","@ + count;
        texts::texts_are_split_at_a_character(d, ',', count);
        assert(bare =~= d + seq![','] + count);
    }
    assert(bare.subrange(0, d.len() as int) =~= d);
    assert(diff::before_comma(bare) == d);
}

/// A hunk of a diff as it is written.
pub open spec fn hunk_text(header: Seq<char>, h: HunkView) -> Seq<Seq<char>> {
    seq![header] + h.lines.map_values(|l: LineView| envelopes::marked(l))
}

/// Hunks of a diff as they are written.
pub open spec fn hunk_texts(headers: Seq<Seq<char>>, hs: Seq<HunkView>, n: int) -> Seq<Seq<char>>
    decreases n,
{
    if n <= 0 {
        Seq::empty()
    } else {
        hunk_texts(headers, hs, n - 1) + hunk_text(headers[n - 1], hs[n - 1])
    }
}

proof fn lemma_marked_line(l: LineView)
    ensures
        !text::starts(envelopes::marked(l), "@@"@),
        diff::body_line(envelopes::marked(l)) == Some(l),
{
    let line = envelopes::marked(l);
    reveal_strlit("+");
    reveal_strlit("-");
    reveal_strlit(" ");
    reveal_strlit("@@");
    envelopes::lemma_starts_first(line, "@@"@);
    envelopes::lemma_starts_first(line, "+"@);
    envelopes::lemma_starts_first(line, "-"@);
    match l {
        LineView::Context(s) => {
            envelopes::lemma_prefixed(" "@, s);
            assert(line[0] == ' ');
        },
        LineView::Remove(s) => {
            envelopes::lemma_prefixed("-"@, s);
            assert(line[0] == '-');
        },
        LineView::Add(s) => {
            envelopes::lemma_prefixed("+"@, s);
            assert(line[0] == '+');
        },
    }
}

proof fn lemma_read_body(
    ls: Seq<Seq<char>>,
    i: int,
    before: Seq<HunkView>,
    h: HunkView,
    n: int,
)
    requires
        0 <= n <= h.lines.len(),
        0 <= i,
        i + h.lines.len() <= ls.len(),
        forall|k: int|
            0 <= k < h.lines.len() ==> #[trigger] ls[i + k] == envelopes::marked(h.lines[k]),
    ensures
        diff::diff_from(
            ls,
            i,
            before.push(HunkView { old_start: h.old_start, lines: Seq::empty() }),
        ) == diff::diff_from(
            ls,
            i + n,
            before.push(HunkView { old_start: h.old_start, lines: h.lines.take(n) }),
        ),
    decreases n,
{
    if n > 0 {
        lemma_read_body(ls, i, before, h, n - 1);
        let l = h.lines[n - 1];
        let shorter = HunkView { old_start: h.old_start, lines: h.lines.take(n - 1) };
        let longer = HunkView { old_start: h.old_start, lines: h.lines.take(n) };
        assert(ls[i + (n - 1)] == envelopes::marked(l));
        lemma_marked_line(l);
        assert(shorter.lines.push(l) =~= longer.lines);
        assert(before.push(shorter).drop_last() =~= before);
        assert(diff::extend_last(before.push(shorter), l) =~= before.push(longer));
    } else {
        assert(h.lines.take(0) =~= Seq::empty());
    }
}

proof fn lemma_read_hunks(
    ls: Seq<Seq<char>>,
    i: int,
    headers: Seq<Seq<char>>,
    hs: Seq<HunkView>,
    n: int,
)
    requires
        0 <= n <= hs.len(),
        headers.len() == hs.len(),
        0 <= i,
        i + hunk_texts(headers, hs, n).len() <= ls.len(),
        ls.subrange(i, i + hunk_texts(headers, hs, n).len()) == hunk_texts(headers, hs, n),
        forall|k: int|
            0 <= k < hs.len() ==> text::starts(#[trigger] headers[k], "@@"@) && diff::header_view(
                headers[k],
            ) == Ok::<nat, Seq<char>>(hs[k].old_start),
    ensures
        diff::diff_from(ls, i, Seq::empty()) == diff::diff_from(
            ls,
            i + hunk_texts(headers, hs, n).len(),
            hs.take(n),
        ),
    decreases n,
{
    if n > 0 {
        let one = hunk_texts(headers, hs, n - 1);
        let h = hs[n - 1];
        let two = hunk_text(headers[n - 1], h);
        let all = hunk_texts(headers, hs, n);
        assert(all == one + two);
        assert forall|k: int| 0 <= k < all.len() implies #[trigger] ls[i + k] == all[k] by {
            assert(ls.subrange(i, i + all.len())[k] == ls[i + k]);
        }
        assert(ls.subrange(i, i + one.len()) =~= one) by {
            assert forall|k: int| 0 <= k < one.len() implies ls.subrange(i, i + one.len())[k]
                == one[k] by {
                assert(ls[i + k] == all[k]);
            }
        }
        lemma_read_hunks(ls, i, headers, hs, n - 1);
        let j = i + one.len();
        assert(ls[i + (one.len() as int)] == all[one.len() as int]);
        assert(ls[j] == headers[n - 1]);
        assert forall|k: int| 0 <= k < h.lines.len() implies #[trigger] ls[(j + 1) + k]
            == envelopes::marked(h.lines[k]) by {
            assert(ls[i + (one.len() + 1 + k)] == all[one.len() + 1 + k]);
        }
        lemma_read_body(ls, j + 1, hs.take(n - 1), h, h.lines.len() as int);
        assert(h.lines.take(h.lines.len() as int) =~= h.lines);
        assert(hs.take(n - 1).push(h) =~= hs.take(n));
    } else {
        assert(hs.take(0) =~= Seq::empty());
    }
}

proof fn lemma_skip_lead(ls: Seq<Seq<char>>, i: int, j: int)
    requires
        0 <= i <= j <= ls.len(),
        forall|k: int| i <= k < j ==> !text::starts(#[trigger] ls[k], "@@"@),
    ensures
        diff::diff_from(ls, i, Seq::empty()) == diff::diff_from(ls, j, Seq::empty()),
    decreases j - i,
{
    if i < j {
        lemma_skip_lead(ls, i + 1, j);
    }
}

/// Hunks that are written are read back, whatever stands before the first header: each with the
/// line that its header names and with its lines by their marks.
pub proof fn written_hunks_are_read_back(
    input: Seq<char>,
    lead: Seq<Seq<char>>,
    headers: Seq<Seq<char>>,
    hs: Seq<HunkView>,
)
    requires
        headers.len() == hs.len(),
        text::lines_view(input) == lead + hunk_texts(headers, hs, hs.len() as int),
        forall|k: int| 0 <= k < lead.len() ==> !text::starts(#[trigger] lead[k], "@@"@),
        forall|k: int|
            0 <= k < hs.len() ==> text::starts(#[trigger] headers[k], "@@"@) && diff::header_view(
                headers[k],
            ) == Ok::<nat, Seq<char>>(hs[k].old_start),
    ensures
        diff::diff_view(input) == Ok::<Seq<HunkView>, Seq<char>>(hs),
{
    let ls = text::lines_view(input);
    let n = lead.len() as int;
    let body = hunk_texts(headers, hs, hs.len() as int);
    assert forall|k: int| 0 <= k < n implies !text::starts(#[trigger] ls[k], "@@"@) by {
        assert(ls[k] == lead[k]);
    }
    lemma_skip_lead(ls, 0, n);
    assert(ls.subrange(n, n + body.len()) =~= body);
    lemma_read_hunks(ls, n, headers, hs, hs.len() as int);
    assert(hs.take(hs.len() as int) =~= hs);
}

/// A header that names no line stops the reading.
pub proof fn headers_without_a_line_are_refused(line: Seq<char>)
    ensures
        text::words_view(line).len() < 3 ==> diff::header_view(line) is Err,
{
}

} // verus!
