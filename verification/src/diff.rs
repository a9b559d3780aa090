//! Unified diffs: parsing hunks and applying them to a text with a small search window.

use vstd::prelude::*;

use crate::text;
use crate::text::{
    cat, cat3, cat4, chars_of, debug_list, dec_string, ends_with, find_char, join, lines,
    parse_number, splice, starts_with, string_of, strip_prefix, trim_end, words,
};

verus! {

/// How many lines above and below its stated place a hunk is searched for.
pub const FUZZY_RANGE: usize = 3;

/// One classified line of a hunk body.
#[derive(Debug)]
pub enum DiffLine {
    Context(String),
    Remove(String),
    Add(String),
}

/// What a [`DiffLine`] stands for.
pub enum LineView {
    Context(Seq<char>),
    Remove(Seq<char>),
    Add(Seq<char>),
}

impl View for DiffLine {
    type V = LineView;

    open spec fn view(&self) -> LineView {
        match self {
            DiffLine::Context(s) => LineView::Context(s@),
            DiffLine::Remove(s) => LineView::Remove(s@),
            DiffLine::Add(s) => LineView::Add(s@),
        }
    }
}

/// One hunk of a unified diff.
#[derive(Debug)]
pub struct Hunk {
    pub old_start: usize,
    pub lines: Vec<DiffLine>,
}

/// What a [`Hunk`] stands for.
#[verifier::ext_equal]
pub struct HunkView {
    pub old_start: nat,
    pub lines: Seq<LineView>,
}

impl View for Hunk {
    type V = HunkView;

    open spec fn view(&self) -> HunkView {
        HunkView { old_start: self.old_start as nat, lines: text::views(self.lines@) }
    }
}

/// The context and removed lines of a hunk body, in order: the block that must stand in
/// the text before the hunk may be applied.
pub open spec fn pattern_view(ls: Seq<LineView>) -> Seq<Seq<char>>
    decreases ls.len(),
{
    if ls.len() == 0 {
        Seq::empty()
    } else {
        let before = pattern_view(ls.drop_last());
        match ls.last() {
            LineView::Context(s) => before.push(s),
            LineView::Remove(s) => before.push(s),
            LineView::Add(_) => before,
        }
    }
}

/// The context and added lines of a hunk body, in order: the block that replaces the
/// matched one.
pub open spec fn replacement_view(ls: Seq<LineView>) -> Seq<Seq<char>>
    decreases ls.len(),
{
    if ls.len() == 0 {
        Seq::empty()
    } else {
        let before = replacement_view(ls.drop_last());
        match ls.last() {
            LineView::Context(s) => before.push(s),
            LineView::Remove(_) => before,
            LineView::Add(s) => before.push(s),
        }
    }
}

/// The context and removed lines of a hunk body.
pub fn pattern_lines(ls: &Vec<DiffLine>) -> (r: Vec<String>)
    ensures
        text::views(r@) == pattern_view(text::views(ls@)),
{
    let mut out: Vec<String> = Vec::new();
    let mut i: usize = 0;
    proof {
        text::lemma_views_empty(out@);
    }
    while i < ls.len()
        invariant
            i <= ls.len(),
            text::views(out@) == pattern_view(text::views(ls@).take(i as int)),
        decreases ls.len() - i,
    {
        broadcast use text::lemma_views_push;

        let ghost longer = text::views(ls@).take(i + 1);
        assert(longer.drop_last() =~= text::views(ls@).take(i as int));
        assert(longer.last() == ls@[i as int]@);
        match &ls[i] {
            DiffLine::Context(s) => {
                out.push(s.clone());
            },
            DiffLine::Remove(s) => {
                out.push(s.clone());
            },
            DiffLine::Add(_) => {},
        }
        i += 1;
    }
    assert(text::views(ls@).take(i as int) =~= text::views(ls@));
    out
}

/// The context and added lines of a hunk body.
pub fn replacement_lines(ls: &Vec<DiffLine>) -> (r: Vec<String>)
    ensures
        text::views(r@) == replacement_view(text::views(ls@)),
{
    let mut out: Vec<String> = Vec::new();
    let mut i: usize = 0;
    proof {
        text::lemma_views_empty(out@);
    }
    while i < ls.len()
        invariant
            i <= ls.len(),
            text::views(out@) == replacement_view(text::views(ls@).take(i as int)),
        decreases ls.len() - i,
    {
        broadcast use text::lemma_views_push;

        let ghost longer = text::views(ls@).take(i + 1);
        assert(longer.drop_last() =~= text::views(ls@).take(i as int));
        assert(longer.last() == ls@[i as int]@);
        match &ls[i] {
            DiffLine::Context(s) => {
                out.push(s.clone());
            },
            DiffLine::Remove(_) => {},
            DiffLine::Add(s) => {
                out.push(s.clone());
            },
        }
        i += 1;
    }
    assert(text::views(ls@).take(i as int) =~= text::views(ls@));
    out
}

/// `s` without the run of `-` at its start.
pub open spec fn drop_dashes(s: Seq<char>) -> Seq<char>
    decreases s.len(),
{
    if s.len() > 0 && s[0] == '-' {
        drop_dashes(s.drop_first())
    } else {
        s
    }
}

/// `s` up to its first comma.
pub open spec fn before_comma(s: Seq<char>) -> Seq<char> {
    s.subrange(0, text::find(s, ',', 0))
}

/// The old start line that a hunk header `@@ -start[,count] +start[,count] @@` names.
pub open spec fn header_view(line: Seq<char>) -> Result<nat, Seq<char>> {
    let parts = text::words_view(line);
    if parts.len() < 3 {
        Err("invalid hunk header: "@ + line)
    } else {
        match text::number(before_comma(drop_dashes(parts[1])), usize::MAX as nat) {
            Some(n) => Ok(n),
            None => Err("invalid line number in hunk header: "@ + line),
        }
    }
}

/// The old start line that a hunk header names.
pub fn parse_hunk_header(line: &str) -> (r: Result<usize, String>)
    ensures
        (match r {
            Ok(n) => Ok(n as nat),
            Err(e) => Err(e@),
        }) == header_view(line@),
{
    let parts = words(line);
    assert(parts.len() == text::words_view(line@).len());
    if parts.len() < 3 {
        return Err(cat("invalid hunk header: ", line));
    }
    let old_part = chars_of(&parts[1]);
    assert(old_part@ == text::words_view(line@)[1]);
    let mut i: usize = 0;
    let n: usize = old_part.len();
    assert(old_part@.subrange(0, n as int) =~= old_part@);
    while i < n && old_part[i] == '-'
        invariant
            i <= n,
            n == old_part.len(),
            drop_dashes(old_part@.subrange(i as int, n as int)) == drop_dashes(old_part@),
        decreases n - i,
    {
        assert(old_part@.subrange(i as int, n as int).drop_first() =~= old_part@.subrange(
            i + 1,
            n as int,
        ));
        i += 1;
    }
    let rest = chars_of(&string_of(&old_part, i, n));
    assert(i < n ==> rest@[0] == old_part@[i as int]);
    let comma: usize = find_char(&rest, ',', 0);
    let start = string_of(&rest, 0, comma);
    match parse_number(&start, usize::MAX as u64) {
        Some(v) => Ok(v as usize),
        None => Err(cat("invalid line number in hunk header: ", line)),
    }
}

/// How a line that follows a hunk header is taken into the hunk, if it is.
pub open spec fn body_line(line: Seq<char>) -> Option<LineView> {
    match (text::after_prefix(line, "-"@), text::after_prefix(line, "+"@), text::after_prefix(line, " "@)) {
        (Some(rest), _, _) => Some(LineView::Remove(rest)),
        (None, Some(rest), _) => Some(LineView::Add(rest)),
        (None, None, Some(rest)) => Some(LineView::Context(rest)),
        (None, None, None) => if text::starts(line, "---"@) || text::starts(line, "+++"@) || text::starts(
            line,
            "diff "@,
        ) || text::starts(line, "index "@) {
            None
        } else {
            Some(LineView::Context(line))
        },
    }
}

/// How a line that follows a hunk header is taken into the hunk, if it is.
pub fn classify_body_line(line: &str) -> (r: Option<DiffLine>)
    ensures
        (match r {
            Some(l) => Some(l@),
            None => None,
        }) == body_line(line@),
{
    if let Some(rest) = strip_prefix(line, "-") {
        return Some(DiffLine::Remove(rest));
    }
    if let Some(rest) = strip_prefix(line, "+") {
        return Some(DiffLine::Add(rest));
    }
    if let Some(rest) = strip_prefix(line, " ") {
        return Some(DiffLine::Context(rest));
    }
    if starts_with(line, "---") || starts_with(line, "+++") || starts_with(line, "diff ")
        || starts_with(line, "index ") {
        None
    } else {
        Some(DiffLine::Context(line.to_owned()))
    }
}

/// `hunks` with `line` at the end of the last hunk.
pub open spec fn extend_last(hunks: Seq<HunkView>, line: LineView) -> Seq<HunkView> {
    let h = hunks.last();
    hunks.drop_last().push(HunkView { old_start: h.old_start, lines: h.lines.push(line) })
}

/// The hunks of a diff, given those of its first `i` lines: a header opens a hunk, each
/// later line goes into the hunk opened last, and what stands before the first header is
/// passed over.
pub open spec fn diff_from(ls: Seq<Seq<char>>, i: int, hunks: Seq<HunkView>) -> Result<
    Seq<HunkView>,
    Seq<char>,
>
    decreases ls.len() - i,
{
    if i >= ls.len() {
        Ok(hunks)
    } else if text::starts(ls[i], "@@"@) {
        match header_view(ls[i]) {
            Ok(n) => diff_from(
                ls,
                i + 1,
                hunks.push(HunkView { old_start: n, lines: Seq::empty() }),
            ),
            Err(e) => Err(e),
        }
    } else if hunks.len() == 0 {
        diff_from(ls, i + 1, hunks)
    } else {
        match body_line(ls[i]) {
            Some(l) => diff_from(ls, i + 1, extend_last(hunks, l)),
            None => diff_from(ls, i + 1, hunks),
        }
    }
}

/// The hunks of a unified diff.
pub open spec fn diff_view(diff: Seq<char>) -> Result<Seq<HunkView>, Seq<char>> {
    diff_from(text::lines_view(diff), 0, Seq::empty())
}

/// The hunks of a unified diff, or the message for its first malformed header.
pub fn parse_unified_diff(diff: &str) -> (r: Result<Vec<Hunk>, String>)
    ensures
        text::list_or_text(r) == diff_view(diff@),
{
    let ls = lines(diff);
    let mut hunks: Vec<Hunk> = Vec::new();
    let mut i: usize = 0;
    proof {
        text::lemma_views_empty(hunks@);
    }
    while i < ls.len()
        invariant
            i <= ls.len(),
            text::views(ls@) == text::lines_view(diff@),
            diff_from(text::views(ls@), i as int, text::views(hunks@)) == diff_view(diff@),
        decreases ls.len() - i,
    {
        broadcast use text::lemma_views_push;

        let line = &ls[i];
        assert(line@ == text::views(ls@)[i as int]);
        if starts_with(line, "@@") {
            match parse_hunk_header(line) {
                Ok(old_start) => {
                    let fresh = Hunk { old_start, lines: Vec::new() };
                    proof {
                        text::lemma_views_empty(fresh.lines@);
                    }
                    hunks.push(fresh);
                },
                Err(e) => {
                    return Err(e);
                },
            }
        } else if hunks.len() > 0 {
            if let Some(l) = classify_body_line(line) {
                let ghost before = hunks@;
                if let Some(mut h) = hunks.pop() {
                    h.lines.push(l);
                    hunks.push(h);
                    assert(text::views(hunks@) =~= extend_last(text::views(before), l@));
                }
            }
        }
        i += 1;
    }
    Ok(hunks)
}

/// Whether the block `pattern` stands in `ls` from line `at` on, trailing white space
/// aside.
pub open spec fn block_at(ls: Seq<Seq<char>>, pattern: Seq<Seq<char>>, at: int) -> bool {
    &&& 0 <= at
    &&& at + pattern.len() <= ls.len()
    &&& forall|i: int|
        0 <= i < pattern.len() ==> text::trim_end_view(ls[at + i]) == text::trim_end_view(
            #[trigger] pattern[i],
        )
}

/// Whether the block `pattern` stands in `ls` from line `start` on.
pub fn matches_at(ls: &Vec<String>, pattern: &Vec<String>, start: usize) -> (r: bool)
    ensures
        r == block_at(text::views(ls@), text::views(pattern@), start as int),
{
    if start > ls.len() || pattern.len() > ls.len() - start {
        return false;
    }
    let mut i: usize = 0;
    while i < pattern.len()
        invariant
            i <= pattern.len(),
            start + pattern.len() <= ls.len(),
            forall|k: int|
                0 <= k < i ==> text::trim_end_view(ls@[start + k]@) == text::trim_end_view(
                    #[trigger] pattern@[k]@,
                ),
        decreases pattern.len() - i,
    {
        let a = trim_end(&ls[start + i]);
        let b = trim_end(&pattern[i]);
        if a != b {
            let ghost k = i as int;
            assert(text::views(pattern@)[k] == pattern@[k]@);
            assert(text::views(ls@)[start + k] == ls@[start + k]@);
            return false;
        }
        i += 1;
    }
    assert forall|k: int| 0 <= k < pattern.len() implies text::trim_end_view(
        text::views(ls@)[start + k],
    ) == text::trim_end_view(#[trigger] text::views(pattern@)[k]) by {
        assert(text::trim_end_view(ls@[start + k]@) == text::trim_end_view(pattern@[k]@));
    }
    true
}

/// The lines in `from..=to` at which the block `pattern` stands in `ls`.
pub open spec fn match_positions(
    ls: Seq<Seq<char>>,
    pattern: Seq<Seq<char>>,
    from: int,
    to: int,
) -> Seq<int>
    decreases to + 1 - from,
{
    if from > to {
        Seq::empty()
    } else if block_at(ls, pattern, from) {
        seq![from] + match_positions(ls, pattern, from + 1, to)
    } else {
        match_positions(ls, pattern, from + 1, to)
    }
}

/// Positions as mathematical integers.
pub open spec fn ints(v: Seq<usize>) -> Seq<int> {
    Seq::new(v.len(), |i: int| v[i] as int)
}

/// The lines in `from..=to` at which the block `pattern` stands in `ls`.
pub fn find_matches(ls: &Vec<String>, pattern: &Vec<String>, from: usize, to: usize) -> (r: Vec<
    usize,
>)
    ensures
        ints(r@) == match_positions(
            text::views(ls@),
            text::views(pattern@),
            from as int,
            to as int,
        ),
{
    let mut found: Vec<usize> = Vec::new();
    let ghost l = text::views(ls@);
    let ghost p = text::views(pattern@);
    let ghost all = match_positions(l, p, from as int, to as int);
    if from > to {
        assert(ints(found@) =~= all);
        return found;
    }
    let mut at: usize = from;
    assert(ints(found@) + all =~= all);
    loop
        invariant
            from <= at <= to,
            l == text::views(ls@),
            p == text::views(pattern@),
            all == match_positions(l, p, from as int, to as int),
            ints(found@) + match_positions(l, p, at as int, to as int) == all,
        decreases to - at,
    {
        let ghost before = ints(found@);
        if matches_at(ls, pattern, at) {
            found.push(at);
            assert(ints(found@) =~= before.push(at as int));
        }
        assert(ints(found@) + match_positions(l, p, at + 1, to as int) =~= all);
        if at == to {
            assert(ints(found@) + match_positions(l, p, at + 1, to as int) =~= ints(found@));
            return found;
        }
        at += 1;
    }
}

/// The range of lines in which a hunk meant for line `target` (counted from zero) is
/// looked for.
pub open spec fn window(ls: Seq<Seq<char>>, pattern: Seq<Seq<char>>, target: int) -> (int, int) {
    let start = if target > FUZZY_RANGE {
        target - FUZZY_RANGE
    } else {
        0
    };
    let last = if ls.len() > pattern.len() {
        ls.len() - pattern.len()
    } else {
        0
    };
    let end = if target + FUZZY_RANGE < last {
        target + FUZZY_RANGE
    } else {
        last
    };
    (start, end)
}

/// The one line in the window around `target` at which `pattern` stands.
pub open spec fn place(ls: Seq<Seq<char>>, pattern: Seq<Seq<char>>, target: int) -> Result<
    int,
    Seq<char>,
> {
    let (start, end) = window(ls, pattern, target);
    let found = match_positions(ls, pattern, start, end);
    if found.len() == 1 {
        Ok(found[0])
    } else if found.len() == 0 {
        Err(
            "could not find matching context at line "@ + text::dec((target + 1) as nat)
                + " (+-3 lines). Expected: "@ + text::debug_list_view(
                pattern.take(
                    if 3 <= pattern.len() {
                        3int
                    } else {
                        pattern.len() as int
                    },
                ),
            ),
        )
    } else {
        Err(
            "matching context is ambiguous: found "@ + text::dec(found.len())
                + " locations near line "@ + text::dec((target + 1) as nat),
        )
    }
}

/// The one line in the window around `target` at which `pattern` stands.
pub fn find_match(ls: &Vec<String>, pattern: &Vec<String>, target: usize) -> (r: Result<
    usize,
    String,
>)
    ensures
        (match r {
            Ok(n) => Ok(n as int),
            Err(e) => Err(e@),
        }) == place(text::views(ls@), text::views(pattern@), target as int),
        r matches Ok(n) ==> target - 3 <= n <= target + 3 && block_at(
            text::views(ls@),
            text::views(pattern@),
            n as int,
        ),
{
    let start: usize = target.saturating_sub(FUZZY_RANGE);
    let last: usize = ls.len().saturating_sub(pattern.len());
    let reach: usize = target.saturating_add(FUZZY_RANGE);
    let end: usize = if reach < last {
        reach
    } else {
        last
    };
    let found = find_matches(ls, pattern, start, end);
    let ghost all = match_positions(
        text::views(ls@),
        text::views(pattern@),
        start as int,
        end as int,
    );
    assert(ints(found@) =~= all);
    assert(found.len() == all.len());
    if found.len() == 1 {
        assert(all[0] == found@[0]);
        proof {
            lemma_positions_hold(
                text::views(ls@),
                text::views(pattern@),
                start as int,
                end as int,
            );
            assert(block_at(text::views(ls@), text::views(pattern@), all[0]));
        }
        Ok(found[0])
    } else if found.len() == 0 {
        Err(
            cat4(
                "could not find matching context at line ",
                &dec_string(target as u128 + 1),
                " (+-3 lines). Expected: ",
                &debug_list(pattern, 3),
            ),
        )
    } else {
        Err(
            cat4(
                "matching context is ambiguous: found ",
                &dec_string(found.len() as u128),
                " locations near line ",
                &dec_string(target as u128 + 1),
            ),
        )
    }
}

/// The hunk order `order` with hunk `i` put in before all hunks that start above it.
pub open spec fn order_with(order: Seq<int>, hunks: Seq<HunkView>, i: int) -> Seq<int>
    decreases order.len(),
{
    if order.len() > 0 && hunks[order.last()].old_start < hunks[i].old_start {
        order_with(order.drop_last(), hunks, i).push(order.last())
    } else {
        order.push(i)
    }
}

/// The first `n` hunks from the last start line to the first, those with one start line in
/// the order in which they came.
pub open spec fn descending(hunks: Seq<HunkView>, n: int) -> Seq<int>
    decreases n,
{
    if n <= 0 {
        Seq::empty()
    } else {
        order_with(descending(hunks, n - 1), hunks, n - 1)
    }
}

pub proof fn lemma_order_with(order: Seq<int>, hunks: Seq<HunkView>, i: int, p: int)
    requires
        0 <= p <= order.len(),
        forall|q: int|
            p <= q < order.len() ==> hunks[#[trigger] order[q]].old_start < hunks[i].old_start,
        p > 0 ==> hunks[order[p - 1]].old_start >= hunks[i].old_start,
    ensures
        order_with(order, hunks, i) == order.insert(p, i),
    decreases order.len(),
{
    if p < order.len() {
        assert(order.last() == order[order.len() - 1]);
        lemma_order_with(order.drop_last(), hunks, i, p);
        assert(order_with(order, hunks, i) =~= order.insert(p, i));
    } else {
        assert(order.push(i) =~= order.insert(p, i));
        if p > 0 {
            assert(order.last() == order[p - 1]);
        }
    }
}

/// The indices of `hunks` from the last start line to the first.
fn descending_order(hunks: &Vec<Hunk>) -> (r: Vec<usize>)
    ensures
        ints(r@) == descending(text::views(hunks@), hunks.len() as int),
        forall|k: int| 0 <= k < r.len() ==> #[trigger] r@[k] < hunks.len(),
{
    let mut order: Vec<usize> = Vec::new();
    let mut i: usize = 0;
    let ghost hv = text::views(hunks@);
    assert(ints(order@) =~= descending(hv, 0));
    while i < hunks.len()
        invariant
            i <= hunks.len(),
            hv == text::views(hunks@),
            ints(order@) == descending(hv, i as int),
            forall|k: int| 0 <= k < order.len() ==> #[trigger] order@[k] < i,
        decreases hunks.len() - i,
    {
        let mut p: usize = order.len();
        while p > 0 && hunks[order[p - 1]].old_start < hunks[i].old_start
            invariant
                i < hunks.len(),
                hv == text::views(hunks@),
                p <= order.len(),
                forall|k: int| 0 <= k < order.len() ==> #[trigger] order@[k] < i,
                forall|q: int|
                    p <= q < order.len() ==> hv[#[trigger] ints(order@)[q]].old_start
                        < hv[i as int].old_start,
            decreases p,
        {
            p -= 1;
        }
        proof {
            if p > 0 {
                assert(ints(order@)[p - 1] == order@[p - 1]);
            }
            lemma_order_with(ints(order@), hv, i as int, p as int);
        }
        let ghost before = order@;
        order.insert(p, i);
        assert(ints(order@) =~= ints(before).insert(p as int, i as int));
        assert forall|k: int| 0 <= k < order.len() implies #[trigger] order@[k] < i + 1 by {
            if k < p {
                assert(order@[k] == before[k]);
            } else if k > p {
                assert(order@[k] == before[k - 1]);
            }
        }
        i += 1;
    }
    order
}

/// The message for the first two neighbours from position `k` of the order on that overlap.
pub open spec fn overlap(hunks: Seq<HunkView>, order: Seq<int>, k: int) -> Option<Seq<char>>
    decreases order.len() - k,
{
    if k + 1 >= order.len() {
        None
    } else {
        let later = hunks[order[k]];
        let earlier = hunks[order[k + 1]];
        if earlier.old_start + pattern_view(earlier.lines).len() > later.old_start {
            Some(
                "overlapping hunks at lines "@ + text::dec(earlier.old_start) + " and "@
                    + text::dec(later.old_start),
            )
        } else {
            overlap(hunks, order, k + 1)
        }
    }
}

/// The lines that come of applying the hunks from position `k` of the order on.
pub open spec fn applied_from(
    ls: Seq<Seq<char>>,
    hunks: Seq<HunkView>,
    order: Seq<int>,
    k: int,
) -> Result<Seq<Seq<char>>, Seq<char>>
    decreases order.len() - k,
{
    if k >= order.len() {
        Ok(ls)
    } else {
        let hunk = hunks[order[k]];
        let pattern = pattern_view(hunk.lines);
        if pattern.len() == 0 {
            Err(
                "hunk "@ + text::dec((order[k] + 1) as nat)
                    + " has no context or remove lines"@,
            )
        } else {
            let target = if hunk.old_start > 0 {
                hunk.old_start - 1
            } else {
                0
            };
            match place(ls, pattern, target) {
                Ok(pos) => applied_from(
                    text::splice_view(
                        ls,
                        pos,
                        pos + pattern.len(),
                        replacement_view(hunk.lines),
                    ),
                    hunks,
                    order,
                    k + 1,
                ),
                Err(e) => Err(e),
            }
        }
    }
}

/// A text of the given lines, ended by a line feed where `content` is.
pub open spec fn unlines(ls: Seq<Seq<char>>, content: Seq<char>) -> Seq<char> {
    if text::ends(content, "\n"@) {
        text::join_view(ls, "\n"@) + "\n"@
    } else {
        text::join_view(ls, "\n"@)
    }
}

/// The text that comes of applying `hunks` to `content`.
pub open spec fn patched(content: Seq<char>, hunks: Seq<HunkView>) -> Result<
    Seq<char>,
    Seq<char>,
> {
    let order = descending(hunks, hunks.len() as int);
    match overlap(hunks, order, 0) {
        Some(e) => Err(e),
        None => match applied_from(text::lines_view(content), hunks, order, 0) {
            Ok(ls) => Ok(unlines(ls, content)),
            Err(e) => Err(e),
        },
    }
}

/// A place found for a block is one at which it stands.
pub proof fn place_holds_the_block(ls: Seq<Seq<char>>, pattern: Seq<Seq<char>>, target: int)
    ensures
        place(ls, pattern, target) matches Ok(pos) ==> block_at(ls, pattern, pos),
{
    let (start, end) = window(ls, pattern, target);
    lemma_positions_hold(ls, pattern, start, end);
    let found = match_positions(ls, pattern, start, end);
    if found.len() == 1 {
        assert(block_at(ls, pattern, found[0]));
    }
}

pub proof fn lemma_positions_hold(ls: Seq<Seq<char>>, pattern: Seq<Seq<char>>, from: int, to: int)
    ensures
        forall|k: int|
            0 <= k < match_positions(ls, pattern, from, to).len() ==> {
                let p = #[trigger] match_positions(ls, pattern, from, to)[k];
                from <= p <= to && block_at(ls, pattern, p)
            },
    decreases to + 1 - from,
{
    if from <= to {
        lemma_positions_hold(ls, pattern, from + 1, to);
        let rest = match_positions(ls, pattern, from + 1, to);
        if block_at(ls, pattern, from) {
            let all = match_positions(ls, pattern, from, to);
            assert(all =~= seq![from] + rest);
            assert forall|k: int| 0 <= k < all.len() implies ({
                let p = #[trigger] all[k];
                from <= p <= to && block_at(ls, pattern, p)
            }) by {
                if k > 0 {
                    assert(all[k] == rest[k - 1]);
                }
            }
        }
    }
}

/// Joins lines to a text that ends with a line feed where `content` does.
pub fn join_lines(ls: &Vec<String>, content: &str) -> (r: String)
    ensures
        r@ == unlines(text::views(ls@), content@),
{
    let out = join(ls, "\n");
    if ends_with(content, "\n") {
        cat(&out, "\n")
    } else {
        out
    }
}

/// Applies the hunks to `content`, from the last start line to the first so that the line
/// numbers of those still to come stay valid.
pub fn apply_hunks(content: &str, hunks: &Vec<Hunk>) -> (r: Result<String, String>)
    ensures
        text::text_or_text(r) == patched(content@, text::views(hunks@)),
{
    let mut ls = lines(content);
    let order = descending_order(hunks);
    let ghost hv = text::views(hunks@);
    let ghost ov = ints(order@);
    let mut w: usize = 0;
    while order.len() >= 2 && w < order.len() - 1
        invariant
            hv == text::views(hunks@),
            ov == ints(order@),
            w <= order.len(),
            forall|k: int| 0 <= k < order.len() ==> #[trigger] order@[k] < hunks.len(),
            overlap(hv, ov, w as int) == overlap(hv, ov, 0),
            ov == descending(hv, hunks.len() as int),
        decreases order.len() - w,
    {
        let later = &hunks[order[w]];
        let earlier = &hunks[order[w + 1]];
        assert(later@ == hv[ov[w as int]]);
        assert(earlier@ == hv[ov[w + 1]]);
        let pattern = pattern_lines(&earlier.lines);
        assert(pattern.len() == pattern_view(earlier@.lines).len());
        if earlier.old_start as u128 + pattern.len() as u128 > later.old_start as u128 {
            return Err(
                cat4(
                    "overlapping hunks at lines ",
                    &dec_string(earlier.old_start as u128),
                    " and ",
                    &dec_string(later.old_start as u128),
                ),
            );
        }
        w += 1;
    }
    let mut k: usize = 0;
    while k < order.len()
        invariant
            hv == text::views(hunks@),
            ov == ints(order@),
            k <= order.len(),
            ov == descending(hv, hunks.len() as int),
            overlap(hv, ov, 0) is None,
            forall|j: int| 0 <= j < order.len() ==> #[trigger] order@[j] < hunks.len(),
            applied_from(text::views(ls@), hv, ov, k as int) == applied_from(
                text::lines_view(content@),
                hv,
                ov,
                0,
            ),
        decreases order.len() - k,
    {
        let hunk = &hunks[order[k]];
        assert(hunk@ == hv[ov[k as int]]);
        let pattern = pattern_lines(&hunk.lines);
        assert(pattern.len() == pattern_view(hunk@.lines).len());
        if pattern.len() == 0 {
            return Err(
                cat3(
                    "hunk ",
                    &dec_string(order[k] as u128 + 1),
                    " has no context or remove lines",
                ),
            );
        }
        let target: usize = hunk.old_start.saturating_sub(1);
        match find_match(&ls, &pattern, target) {
            Ok(pos) => {
                proof {
                    place_holds_the_block(text::views(ls@), text::views(pattern@), target as int);
                }
                let fresh = replacement_lines(&hunk.lines);
                ls = splice(&ls, pos, pos + pattern.len(), &fresh);
            },
            Err(e) => {
                return Err(e);
            },
        }
        k += 1;
    }
    Ok(join_lines(&ls, content))
}

/// Taking a text apart into lines and putting it together again gives the text back, where
/// no line feed follows a carriage return.
pub proof fn lines_join_back(content: Seq<char>)
    requires
        text::plain_feeds(content),
    ensures
        unlines(text::lines_view(content), content) == content,
{
    text::lemma_ends_with_feed(content);
    if content.len() > 0 {
        text::lemma_lines_join(content, 0);
        assert(content.subrange(0, content.len() as int) =~= content);
        let joined = text::join_view(text::lines_view(content), "\n"@);
        assert(joined + Seq::<char>::empty() =~= joined);
    } else {
        assert(text::join_view(text::lines_view(content), "\n"@) =~= content);
    }
}

/// A place is found for a block only where it is the only one in the window.
pub proof fn place_is_unique(ls: Seq<Seq<char>>, pattern: Seq<Seq<char>>, target: int, other: int)
    requires
        place(ls, pattern, target) is Ok,
        block_at(ls, pattern, other),
        window(ls, pattern, target).0 <= other <= window(ls, pattern, target).1,
    ensures
        place(ls, pattern, target) == Ok::<int, Seq<char>>(other),
{
    let (start, end) = window(ls, pattern, target);
    lemma_positions_complete(ls, pattern, start, end, other);
    let found = match_positions(ls, pattern, start, end);
    let k = choose|k: int| 0 <= k < found.len() && found[k] == other;
    assert(k == 0);
}

pub proof fn lemma_positions_complete(
    ls: Seq<Seq<char>>,
    pattern: Seq<Seq<char>>,
    from: int,
    to: int,
    at: int,
)
    requires
        from <= at <= to,
        block_at(ls, pattern, at),
    ensures
        exists|k: int|
            0 <= k < match_positions(ls, pattern, from, to).len() && match_positions(
                ls,
                pattern,
                from,
                to,
            )[k] == at,
    decreases to - from,
{
    let all = match_positions(ls, pattern, from, to);
    if at == from {
        assert(all[0] == at);
    } else {
        lemma_positions_complete(ls, pattern, from + 1, to, at);
        let rest = match_positions(ls, pattern, from + 1, to);
        let k = choose|k: int| 0 <= k < rest.len() && rest[k] == at;
        if block_at(ls, pattern, from) {
            assert(all[k + 1] == at);
        } else {
            assert(all[k] == at);
        }
    }
}

/// The order in which hunks are applied holds each hunk once and never goes from one start
/// line to a later one; of two hunks with one start line the one that came first goes first.
pub proof fn hunks_are_applied_from_the_end(hunks: Seq<HunkView>, n: int)
    requires
        0 <= n <= hunks.len(),
    ensures
        ({
            let order = descending(hunks, n);
            &&& order.len() == n
            &&& forall|k: int| 0 <= k < n ==> 0 <= #[trigger] order[k] < n
            &&& order.no_duplicates()
            &&& forall|i: int, j: int|
                0 <= i < j < n ==> hunks[#[trigger] order[i]].old_start
                    > hunks[#[trigger] order[j]].old_start || (hunks[order[i]].old_start
                    == hunks[order[j]].old_start && order[i] < order[j])
        }),
    decreases n,
{
    if n > 0 {
        hunks_are_applied_from_the_end(hunks, n - 1);
        let before = descending(hunks, n - 1);
        let p = lemma_order_slot(before, hunks, n - 1);
        lemma_order_with(before, hunks, n - 1, p);
        let order = descending(hunks, n);
        assert(order == before.insert(p, n - 1));
        assert forall|k: int| 0 <= k < n implies 0 <= #[trigger] order[k] < n by {
            if k < p {
                assert(order[k] == before[k]);
            } else if k > p {
                assert(order[k] == before[k - 1]);
            }
        }
        assert forall|i: int, j: int| 0 <= i < j < n implies hunks[#[trigger] order[i]].old_start
            > hunks[#[trigger] order[j]].old_start || (hunks[order[i]].old_start
            == hunks[order[j]].old_start && order[i] < order[j]) by {
            if i < p {
                assert(order[i] == before[i]);
                if p > 0 && i < p - 1 {
                    assert(hunks[before[i]].old_start >= hunks[before[p - 1]].old_start);
                }
            } else if i > p {
                assert(order[i] == before[i - 1]);
            }
            if j < p {
                assert(order[j] == before[j]);
            } else if j > p {
                assert(order[j] == before[j - 1]);
            }
        }
    }
}

/// Where the next hunk goes in an order that never rises.
pub proof fn lemma_order_slot(order: Seq<int>, hunks: Seq<HunkView>, i: int) -> (p: int)
    requires
        forall|a: int, b: int|
            0 <= a < b < order.len() ==> hunks[#[trigger] order[a]].old_start
                >= hunks[#[trigger] order[b]].old_start,
    ensures
        0 <= p <= order.len(),
        forall|q: int|
            p <= q < order.len() ==> hunks[#[trigger] order[q]].old_start < hunks[i].old_start,
        p > 0 ==> hunks[order[p - 1]].old_start >= hunks[i].old_start,
    decreases order.len(),
{
    if order.len() == 0 || hunks[order.last()].old_start >= hunks[i].old_start {
        order.len() as int
    } else {
        let shorter = order.drop_last();
        let p = lemma_order_slot(shorter, hunks, i);
        assert forall|q: int| p <= q < order.len() implies hunks[#[trigger] order[q]].old_start
            < hunks[i].old_start by {
            if q < shorter.len() {
                assert(order[q] == shorter[q]);
            }
        }
        if p > 0 {
            assert(order[p - 1] == shorter[p - 1]);
        }
        p
    }
}

pub proof fn lemma_all_in_order(hunks: Seq<HunkView>, n: int, i: int)
    requires
        0 <= i < n <= hunks.len(),
    ensures
        descending(hunks, n).contains(i),
    decreases n,
{
    hunks_are_applied_from_the_end(hunks, n - 1);
    let before = descending(hunks, n - 1);
    let p = lemma_order_slot(before, hunks, n - 1);
    lemma_order_with(before, hunks, n - 1, p);
    let order = descending(hunks, n);
    assert(order == before.insert(p, n - 1));
    if i == n - 1 {
        assert(order[p] == i);
    } else {
        lemma_all_in_order(hunks, n - 1, i);
        let k = choose|k: int| 0 <= k < before.len() && before[k] == i;
        if k < p {
            assert(order[k] == i);
        } else {
            assert(order[k + 1] == i);
        }
    }
}

/// The hunks in the order in which they are applied.
pub open spec fn sorted(hunks: Seq<HunkView>) -> Seq<HunkView> {
    let order = descending(hunks, hunks.len() as int);
    Seq::new(order.len(), |k: int| hunks[order[k]])
}

/// Whether each hunk starts above the one before it.
pub open spec fn falls(s: Seq<HunkView>) -> bool {
    forall|i: int, j: int|
        0 <= i < j < s.len() ==> (#[trigger] s[i]).old_start > (#[trigger] s[j]).old_start
}

proof fn lemma_sorted_holds(hunks: Seq<HunkView>, h: HunkView)
    ensures
        sorted(hunks).len() == hunks.len(),
        sorted(hunks).contains(h) <==> hunks.contains(h),
{
    let n = hunks.len() as int;
    let order = descending(hunks, n);
    let s = sorted(hunks);
    hunks_are_applied_from_the_end(hunks, n);
    if s.contains(h) {
        let k = choose|k: int| 0 <= k < s.len() && s[k] == h;
        assert(hunks[order[k]] == h);
    }
    if hunks.contains(h) {
        let i = choose|i: int| 0 <= i < hunks.len() && hunks[i] == h;
        lemma_all_in_order(hunks, n, i);
        let k = choose|k: int| 0 <= k < order.len() && order[k] == i;
        assert(s[k] == h);
    }
}

pub proof fn lemma_applied_has_patterns(
    ls: Seq<Seq<char>>,
    hunks: Seq<HunkView>,
    order: Seq<int>,
    k: int,
    i: int,
)
    requires
        0 <= k <= i < order.len(),
        applied_from(ls, hunks, order, k) is Ok,
    ensures
        pattern_view(hunks[order[i]].lines).len() > 0,
    decreases order.len() - k,
{
    if k < i {
        let hunk = hunks[order[k]];
        let pattern = pattern_view(hunk.lines);
        let target = if hunk.old_start > 0 {
            hunk.old_start - 1
        } else {
            0
        };
        let pos = place(ls, pattern, target)->Ok_0;
        lemma_applied_has_patterns(
            text::splice_view(ls, pos, pos + pattern.len(), replacement_view(hunk.lines)),
            hunks,
            order,
            k + 1,
            i,
        );
    }
}

pub proof fn lemma_no_overlap(hunks: Seq<HunkView>, order: Seq<int>, k: int, i: int)
    requires
        0 <= k <= i,
        i + 1 < order.len(),
        overlap(hunks, order, k) is None,
    ensures
        hunks[order[i + 1]].old_start + pattern_view(hunks[order[i + 1]].lines).len()
            <= hunks[order[i]].old_start,
    decreases order.len() - k,
{
    if k < i {
        lemma_no_overlap(hunks, order, k + 1, i);
    }
}

pub proof fn lemma_applied_fall(content: Seq<char>, hunks: Seq<HunkView>)
    requires
        patched(content, hunks) is Ok,
    ensures
        falls(sorted(hunks)),
{
    let n = hunks.len() as int;
    let order = descending(hunks, n);
    let s = sorted(hunks);
    hunks_are_applied_from_the_end(hunks, n);
    assert forall|i: int, j: int| 0 <= i < j < s.len() implies (#[trigger] s[i]).old_start > (
    #[trigger] s[j]).old_start by {
        lemma_applied_has_patterns(text::lines_view(content), hunks, order, 0, i + 1);
        lemma_no_overlap(hunks, order, 0, i);
        if i + 1 < j {
            assert(hunks[order[i + 1]].old_start >= hunks[order[j]].old_start);
        }
    }
}

proof fn lemma_falling_is_one(a: Seq<HunkView>, b: Seq<HunkView>)
    requires
        falls(a),
        falls(b),
        a.len() == b.len(),
        forall|h: HunkView| #[trigger] a.contains(h) <==> b.contains(h),
    ensures
        a == b,
    decreases a.len(),
{
    if a.len() > 0 {
        let x = a[0];
        let y = b[0];
        assert(a.contains(x) && b.contains(y));
        assert(b.contains(x) && a.contains(y));
        let j = choose|j: int| 0 <= j < b.len() && b[j] == x;
        let k = choose|k: int| 0 <= k < a.len() && a[k] == y;
        if j > 0 {
            assert(b[0].old_start > b[j].old_start);
        }
        if k > 0 {
            assert(a[0].old_start > a[k].old_start);
        }
        assert(x == y);
        let p = a.drop_first();
        let q = b.drop_first();
        assert(falls(p)) by {
            assert forall|i: int, j: int| 0 <= i < j < p.len() implies (#[trigger] p[i]).old_start
                > (#[trigger] p[j]).old_start by {
                assert(a[i + 1].old_start > a[j + 1].old_start);
            }
        }
        assert(falls(q)) by {
            assert forall|i: int, j: int| 0 <= i < j < q.len() implies (#[trigger] q[i]).old_start
                > (#[trigger] q[j]).old_start by {
                assert(b[i + 1].old_start > b[j + 1].old_start);
            }
        }
        assert forall|h: HunkView| #[trigger] p.contains(h) <==> q.contains(h) by {
            if p.contains(h) {
                let i = choose|i: int| 0 <= i < p.len() && p[i] == h;
                assert(a[i + 1] == h && a[0].old_start > a[i + 1].old_start);
                assert(a.contains(h));
                let m = choose|m: int| 0 <= m < b.len() && b[m] == h;
                assert(q[m - 1] == h);
            }
            if q.contains(h) {
                let i = choose|i: int| 0 <= i < q.len() && q[i] == h;
                assert(b[i + 1] == h && b[0].old_start > b[i + 1].old_start);
                assert(b.contains(h));
                assert(a.contains(h));
                let m = choose|m: int| 0 <= m < a.len() && a[m] == h;
                assert(p[m - 1] == h);
            }
        }
        lemma_falling_is_one(p, q);
        assert(a =~= seq![x] + p);
        assert(b =~= seq![y] + q);
    } else {
        assert(a =~= b);
    }
}

proof fn lemma_same_work(a: Seq<HunkView>, b: Seq<HunkView>, ls: Seq<Seq<char>>, k: int)
    requires
        sorted(a) == sorted(b),
        0 <= k,
    ensures
        ({
            let x = descending(a, a.len() as int);
            let y = descending(b, b.len() as int);
            &&& overlap(a, x, k) == overlap(b, y, k)
            &&& applied_from(ls, a, x, k) is Ok ==> applied_from(ls, b, y, k) == applied_from(
                ls,
                a,
                x,
                k,
            )
        }),
    decreases sorted(a).len() - k,
{
    let x = descending(a, a.len() as int);
    let y = descending(b, b.len() as int);
    assert(x.len() == sorted(a).len() && y.len() == sorted(b).len());
    if k < x.len() {
        assert(sorted(a)[k] == a[x[k]] && sorted(b)[k] == b[y[k]]);
        if k + 1 < x.len() {
            assert(sorted(a)[k + 1] == a[x[k + 1]] && sorted(b)[k + 1] == b[y[k + 1]]);
        }
        let hunk = a[x[k]];
        let pattern = pattern_view(hunk.lines);
        let target = if hunk.old_start > 0 {
            hunk.old_start - 1
        } else {
            0
        };
        lemma_same_work(a, b, ls, k + 1);
        if pattern.len() > 0 && place(ls, pattern, target) is Ok {
            let pos = place(ls, pattern, target)->Ok_0;
            lemma_same_work(
                a,
                b,
                text::splice_view(ls, pos, pos + pattern.len(), replacement_view(hunk.lines)),
                k + 1,
            );
        }
    }
}

/// The order in which hunks are listed is no matter: hunks that can be applied give the same text
/// in every order.
pub proof fn order_of_hunks_is_no_matter(
    content: Seq<char>,
    a: Seq<HunkView>,
    b: Seq<HunkView>,
)
    requires
        a.to_multiset() == b.to_multiset(),
    ensures
        patched(content, a) is Ok <==> patched(content, b) is Ok,
        patched(content, a) is Ok ==> patched(content, b) == patched(content, a),
{
    if patched(content, a) is Ok {
        lemma_reordered(content, a, b);
    } else if patched(content, b) is Ok {
        lemma_reordered(content, b, a);
    }
}

proof fn lemma_reordered(content: Seq<char>, a: Seq<HunkView>, b: Seq<HunkView>)
    requires
        a.to_multiset() == b.to_multiset(),
        patched(content, a) is Ok,
    ensures
        patched(content, b) == patched(content, a),
{
    let s = sorted(a);
    let t = sorted(b);
    lemma_applied_fall(content, a);
    vstd::seq_lib::to_multiset_len(a);
    vstd::seq_lib::to_multiset_len(b);
    assert forall|h: HunkView| #[trigger] a.contains(h) <==> b.contains(h) by {
        vstd::seq_lib::to_multiset_contains(a, h);
        vstd::seq_lib::to_multiset_contains(b, h);
    }
    lemma_distinct_starts(a);
    assert(a.no_duplicates());
    a.lemma_multiset_has_no_duplicates();
    b.lemma_multiset_has_no_duplicates_conv();
    let n = b.len() as int;
    let order = descending(b, n);
    hunks_are_applied_from_the_end(b, n);
    assert forall|i: int, j: int| 0 <= i < j < t.len() implies (#[trigger] t[i]).old_start > (
    #[trigger] t[j]).old_start by {
        if b[order[i]].old_start == b[order[j]].old_start {
            assert(b.contains(b[order[i]]) && b.contains(b[order[j]]));
            assert(a.contains(b[order[i]]) && a.contains(b[order[j]]));
            assert(order[i] != order[j]);
            assert(b[order[i]] != b[order[j]]);
            let p = choose|p: int| 0 <= p < a.len() && a[p] == b[order[i]];
            let q = choose|q: int| 0 <= q < a.len() && a[q] == b[order[j]];
            assert(a[p].old_start != a[q].old_start);
        }
    }
    lemma_sorted_holds(a, HunkView { old_start: 0, lines: Seq::empty() });
    lemma_sorted_holds(b, HunkView { old_start: 0, lines: Seq::empty() });
    assert forall|h: HunkView| #[trigger] s.contains(h) <==> t.contains(h) by {
        lemma_sorted_holds(a, h);
        lemma_sorted_holds(b, h);
        assert(a.contains(h) <==> b.contains(h));
    }
    lemma_falling_is_one(s, t);
    lemma_same_work(a, b, text::lines_view(content), 0);
}

proof fn lemma_distinct_starts(a: Seq<HunkView>)
    requires
        falls(sorted(a)),
    ensures
        forall|p: int, q: int|
            0 <= p < a.len() && 0 <= q < a.len() && p != q ==> (#[trigger] a[p]).old_start != (
            #[trigger] a[q]).old_start,
{
    let n = a.len() as int;
    let order = descending(a, n);
    let s = sorted(a);
    assert forall|p: int, q: int| 0 <= p < a.len() && 0 <= q < a.len() && p != q implies (
    #[trigger] a[p]).old_start != (#[trigger] a[q]).old_start by {
        lemma_all_in_order(a, n, p);
        lemma_all_in_order(a, n, q);
        let i = choose|i: int| 0 <= i < order.len() && order[i] == p;
        let j = choose|j: int| 0 <= j < order.len() && order[j] == q;
        assert(s[i] == a[p] && s[j] == a[q]);
        if i < j {
            assert(s[i].old_start > s[j].old_start);
        } else {
            assert(s[j].old_start > s[i].old_start);
        }
    }
}

/// A patched text ends with a line feed where the text that it came from does.
pub proof fn patched_keeps_final_feed(content: Seq<char>, hunks: Seq<HunkView>)
    requires
        text::ends(content, "\n"@),
    ensures
        patched(content, hunks) matches Ok(out) ==> text::ends(out, "\n"@),
{
    if let Ok(out) = patched(content, hunks) {
        reveal_strlit("\n");
        text::lemma_ends_with_feed(out);
    }
}

} // verus!
