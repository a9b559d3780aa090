//! What a patch envelope says: sections that are written are read back, and nothing in an
//! envelope goes unread.

use vstd::prelude::*;

use crate::diff::LineView;
use crate::patch;
use crate::patch::{OpView, ParserView, SectionView, UpdateHunkView};
use crate::text;

verus! {

/// A section as it is written.
pub enum Draft {
    Add { path: Seq<char>, lines: Seq<Seq<char>> },
    Delete { path: Seq<char> },
    Update { path: Seq<char>, move_to: Option<Seq<char>>, hunks: Seq<UpdateHunkView> },
}

/// What a section is read as: the content of a file that is added has its lines with line feeds
/// between them.
pub open spec fn meant(d: Draft) -> OpView {
    match d {
        Draft::Add { path, lines } => OpView::Add { path, content: text::join_view(lines, "\n"@) },
        Draft::Delete { path } => OpView::Delete { path },
        Draft::Update { path, move_to, hunks } => OpView::Update { path, move_to, hunks },
    }
}

/// A line of a hunk as it is written.
pub open spec fn marked(l: LineView) -> Seq<char> {
    match l {
        LineView::Context(s) => " "@ + s,
        LineView::Remove(s) => "-"@ + s,
        LineView::Add(s) => "+"@ + s,
    }
}

/// A hunk as it is written: its marker, its lines, and the mark of the end of the file.
pub open spec fn hunk_lines(h: UpdateHunkView) -> Seq<Seq<char>> {
    seq![
        match h.anchor {
            Some(a) => "@@ "@ + a,
            None => "@@"@,
        },
    ] + h.lines.map_values(|l: LineView| marked(l)) + (if h.at_eof {
        seq!["*** End of File"@]
    } else {
        Seq::empty()
    })
}

/// Hunks as they are written.
pub open spec fn all_hunk_lines(hunks: Seq<UpdateHunkView>) -> Seq<Seq<char>>
    decreases hunks.len(),
{
    if hunks.len() == 0 {
        Seq::empty()
    } else {
        all_hunk_lines(hunks.drop_last()) + hunk_lines(hunks.last())
    }
}

/// A section as it is written.
pub open spec fn section_lines(d: Draft) -> Seq<Seq<char>> {
    match d {
        Draft::Add { path, lines } => seq!["*** Add File: "@ + path] + lines.map_values(
            |l: Seq<char>| "+"@ + l,
        ),
        Draft::Delete { path } => seq!["*** Delete File: "@ + path],
        Draft::Update { path, move_to, hunks } => seq!["*** Update File: "@ + path] + (
        match move_to {
            Some(dest) => seq!["*** Move to: "@ + dest],
            None => Seq::empty(),
        }) + all_hunk_lines(hunks),
    }
}

/// Sections as they are written.
pub open spec fn all_section_lines(ds: Seq<Draft>) -> Seq<Seq<char>>
    decreases ds.len(),
{
    if ds.len() == 0 {
        Seq::empty()
    } else {
        all_section_lines(ds.drop_last()) + section_lines(ds.last())
    }
}

/// Whether a text can stand behind a directive: it is not empty, and has no white space at its
/// ends.
pub open spec fn nameable(s: Seq<char>) -> bool {
    s.len() > 0 && text::trim_view(s) == s
}

/// Whether a hunk can be written where it stands: its anchor can, and only the last one is pinned.
pub open spec fn writable_hunk(h: UpdateHunkView, last: bool) -> bool {
    &&& h.anchor matches Some(a) ==> nameable(a) && a[0] != '-'
    &&& h.at_eof ==> last
}

/// Whether a section can be written: an update has a line or a destination.
pub open spec fn writable(d: Draft) -> bool {
    match d {
        Draft::Add { path, .. } => nameable(path),
        Draft::Delete { path } => nameable(path),
        Draft::Update { path, move_to, hunks } => {
            &&& nameable(path)
            &&& move_to matches Some(dest) ==> nameable(dest)
            &&& move_to is Some || exists|i: int|
                0 <= i < hunks.len() && (#[trigger] hunks[i]).lines.len() > 0
            &&& forall|i: int|
                0 <= i < hunks.len() ==> writable_hunk(#[trigger] hunks[i], i == hunks.len() - 1)
        },
    }
}

/// The state of a parser after the lines from `i` up to `j`.
spec fn fed(st: ParserView, ls: Seq<Seq<char>>, i: int, j: int) -> Option<ParserView>
    decreases j - i,
{
    if i >= j {
        Some(st)
    } else {
        match patch::step_view(st, ls[i], (i + 1) as nat) {
            Ok(next) => fed(next, ls, i + 1, j),
            Err(_) => None,
        }
    }
}

proof fn lemma_fed_on(st: ParserView, ls: Seq<Seq<char>>, i: int, j: int, k: int)
    requires
        i <= j <= k,
        fed(st, ls, i, j) is Some,
    ensures
        fed(st, ls, i, k) == fed(fed(st, ls, i, j)->0, ls, j, k),
    decreases j - i,
{
    if i < j {
        let next = patch::step_view(st, ls[i], (i + 1) as nat)->Ok_0;
        lemma_fed_on(next, ls, i + 1, j, k);
    }
}

proof fn lemma_fed_one(st: ParserView, ls: Seq<Seq<char>>, i: int, next: ParserView)
    requires
        patch::step_view(st, ls[i], (i + 1) as nat) == Ok::<ParserView, Seq<char>>(next),
    ensures
        fed(st, ls, i, i + 1) == Some(next),
{
    reveal_with_fuel(fed, 2);
}

proof fn lemma_fed_envelope(st: ParserView, ls: Seq<Seq<char>>, i: int)
    requires
        0 <= i <= ls.len(),
        fed(st, ls, i, ls.len() as int) is Some,
    ensures
        patch::envelope_from(ls, i, st) == patch::envelope_from(
            ls,
            ls.len() as int,
            fed(st, ls, i, ls.len() as int)->0,
        ),
    decreases ls.len() - i,
{
    if i < ls.len() {
        let next = patch::step_view(st, ls[i], (i + 1) as nat)->Ok_0;
        lemma_fed_envelope(next, ls, i + 1);
    }
}

pub proof fn lemma_prefixed(p: Seq<char>, rest: Seq<char>)
    ensures
        text::starts(p + rest, p),
        text::after_prefix(p + rest, p) == Some(rest),
{
    assert((p + rest).subrange(0, p.len() as int) =~= p);
    assert((p + rest).subrange(p.len() as int, (p + rest).len() as int) =~= rest);
}

/// A line that does not begin with a star is no directive.
proof fn lemma_no_directive(st: ParserView, line: Seq<char>, no: nat)
    requires
        !st.saw_end,
        line.len() == 0 || line[0] != '*',
    ensures
        patch::step_view(st, line, no) == patch::step_body(st, line, no),
{
    reveal_strlit("*** End Patch");
    reveal_strlit("*** Add File: ");
    reveal_strlit("*** Delete File: ");
    reveal_strlit("*** Update File: ");
    reveal_strlit("*** Move to: ");
    reveal_strlit("*** End of File");
    reveal_strlit("***");
    lemma_starts_first(line, "*** Add File: "@);
    lemma_starts_first(line, "*** Delete File: "@);
    lemma_starts_first(line, "*** Update File: "@);
    lemma_starts_first(line, "*** Move to: "@);
    lemma_starts_first(line, "***"@);
}

pub proof fn lemma_starts_first(line: Seq<char>, p: Seq<char>)
    requires
        p.len() > 0,
    ensures
        text::starts(line, p) ==> line.len() > 0 && line[0] == p[0],
        text::starts(line, p) ==> line.len() >= p.len() && forall|i: int|
            0 <= i < p.len() ==> #[trigger] line[i] == p[i],
{
    if text::starts(line, p) {
        assert forall|i: int| 0 <= i < p.len() implies #[trigger] line[i] == p[i] by {
            assert(line.subrange(0, p.len() as int)[i] == line[i]);
        }
        assert(line[0] == p[0]);
    }
}

proof fn lemma_directives(path: Seq<char>)
    ensures
        !text::starts("*** Delete File: "@ + path, "*** Add File: "@),
        !text::starts("*** Update File: "@ + path, "*** Add File: "@),
        !text::starts("*** Update File: "@ + path, "*** Delete File: "@),
        !text::starts("*** Move to: "@ + path, "*** Add File: "@),
        !text::starts("*** Move to: "@ + path, "*** Delete File: "@),
        !text::starts("*** Move to: "@ + path, "*** Update File: "@),
        !text::starts("*** End of File"@, "*** Add File: "@),
        !text::starts("*** End of File"@, "*** Delete File: "@),
        !text::starts("*** End of File"@, "*** Update File: "@),
        !text::starts("*** End of File"@, "*** Move to: "@),
        "*** End of File"@ != "*** End Patch"@,
        "*** Add File: "@ + path != "*** End Patch"@,
        "*** Delete File: "@ + path != "*** End Patch"@,
        "*** Update File: "@ + path != "*** End Patch"@,
        "*** Move to: "@ + path != "*** End Patch"@,
{
    reveal_strlit("*** End Patch");
    reveal_strlit("*** Add File: ");
    reveal_strlit("*** Delete File: ");
    reveal_strlit("*** Update File: ");
    reveal_strlit("*** Move to: ");
    reveal_strlit("*** End of File");
    let d = "*** Delete File: "@ + path;
    let u = "*** Update File: "@ + path;
    let m = "*** Move to: "@ + path;
    let a = "*** Add File: "@ + path;
    let e = "*** End of File"@;
    lemma_starts_first(d, "*** Add File: "@);
    lemma_starts_first(u, "*** Add File: "@);
    lemma_starts_first(u, "*** Delete File: "@);
    lemma_starts_first(m, "*** Add File: "@);
    lemma_starts_first(m, "*** Delete File: "@);
    lemma_starts_first(m, "*** Update File: "@);
    lemma_starts_first(e, "*** Add File: "@);
    lemma_starts_first(e, "*** Delete File: "@);
    lemma_starts_first(e, "*** Update File: "@);
    lemma_starts_first(e, "*** Move to: "@);
    assert(d[4] == 'D' && u[4] == 'U' && m[4] == 'M' && e[4] == 'E' && a[4] == 'A');
    assert("*** Add File: "@[4] == 'A');
    assert("*** Delete File: "@[4] == 'D');
    assert("*** Update File: "@[4] == 'U');
    assert("*** Move to: "@[4] == 'M');
    assert("*** End Patch"@[4] == 'E');
    assert("*** End Patch"@[8] == 'P' && e[8] == 'o');
}

proof fn lemma_added_lines(
    ls: Seq<Seq<char>>,
    i: int,
    st: ParserView,
    path: Seq<char>,
    lines: Seq<Seq<char>>,
    n: int,
)
    requires
        !st.saw_end,
        st.section == (SectionView::Add { path, lines: Seq::empty() }),
        0 <= n <= lines.len(),
        0 <= i,
        forall|k: int| 0 <= k < lines.len() ==> #[trigger] ls[i + k] == "+"@ + lines[k],
    ensures
        fed(st, ls, i, i + n) == Some(
            ParserView { section: SectionView::Add { path, lines: lines.take(n) }, ..st },
        ),
    decreases n,
{
    if n > 0 {
        lemma_added_lines(ls, i, st, path, lines, n - 1);
        let before = ParserView {
            section: SectionView::Add { path, lines: lines.take(n - 1) },
            ..st
        };
        let line = ls[i + (n - 1)];
        reveal_strlit("+");
        assert(line == "+"@ + lines[n - 1]);
        assert(line[0] == '+');
        lemma_prefixed("+"@, lines[n - 1]);
        lemma_no_directive(before, line, (i + n) as nat);
        let after = ParserView { section: SectionView::Add { path, lines: lines.take(n) }, ..st };
        assert(lines.take(n - 1).push(lines[n - 1]) =~= lines.take(n));
        lemma_fed_one(before, ls, i + n - 1, after);
        lemma_fed_on(st, ls, i, i + n - 1, i + n);
    } else {
        assert(lines.take(0) =~= Seq::empty());
        assert(st == (ParserView { section: SectionView::Add { path, lines: lines.take(0) }, ..st }));
    }
}

proof fn lemma_body_lines(
    ls: Seq<Seq<char>>,
    i: int,
    st: ParserView,
    path: Seq<char>,
    move_to: Option<Seq<char>>,
    before: Seq<UpdateHunkView>,
    h: UpdateHunkView,
    n: int,
)
    requires
        !st.saw_end,
        st.section == (SectionView::Update {
            path,
            move_to,
            hunks: before.push(patch::bare_hunk(h.anchor)),
        }),
        0 <= n <= h.lines.len(),
        0 <= i,
        forall|k: int| 0 <= k < h.lines.len() ==> #[trigger] ls[i + k] == marked(h.lines[k]),
    ensures
        fed(st, ls, i, i + n) == Some(
            ParserView {
                section: SectionView::Update {
                    path,
                    move_to,
                    hunks: before.push(
                        UpdateHunkView {
                            anchor: h.anchor,
                            lines: h.lines.take(n),
                            at_eof: false,
                        },
                    ),
                },
                ..st
            },
        ),
    decreases n,
{
    if n > 0 {
        lemma_body_lines(ls, i, st, path, move_to, before, h, n - 1);
        let shorter = UpdateHunkView {
            anchor: h.anchor,
            lines: h.lines.take(n - 1),
            at_eof: false,
        };
        let longer = UpdateHunkView { anchor: h.anchor, lines: h.lines.take(n), at_eof: false };
        let was = before.push(shorter);
        let now = before.push(longer);
        let a = ParserView { section: SectionView::Update { path, move_to, hunks: was }, ..st };
        let b = ParserView { section: SectionView::Update { path, move_to, hunks: now }, ..st };
        let l = h.lines[n - 1];
        let line = ls[i + (n - 1)];
        assert(line == marked(l));
        reveal_strlit("+");
        reveal_strlit("-");
        reveal_strlit(" ");
        reveal_strlit("@@");
        lemma_starts_first(line, "@@"@);
        lemma_starts_first(line, "+"@);
        lemma_starts_first(line, "-"@);
        match l {
            LineView::Context(s) => {
                lemma_prefixed(" "@, s);
                assert(line[0] == ' ');
            },
            LineView::Remove(s) => {
                lemma_prefixed("-"@, s);
                assert(line[0] == '-');
            },
            LineView::Add(s) => {
                lemma_prefixed("+"@, s);
                assert(line[0] == '+');
            },
        }
        assert(patch::update_line(line) == Ok::<Option<LineView>, ()>(Some(l)));
        lemma_no_directive(a, line, (i + n) as nat);
        assert(shorter.lines.push(l) =~= longer.lines);
        assert(was.last() == shorter);
        assert(was.drop_last() =~= before);
        assert(patch::add_to_last(was, l) =~= now);
        assert(patch::step_hunks(was, line, (i + n) as nat) == Ok::<
            Seq<UpdateHunkView>,
            Seq<char>,
        >(now));
        lemma_fed_one(a, ls, i + n - 1, b);
        lemma_fed_on(st, ls, i, i + n - 1, i + n);
    } else {
        assert(h.lines.take(0) =~= Seq::empty());
    }
}

proof fn lemma_hunk(
    ls: Seq<Seq<char>>,
    i: int,
    st: ParserView,
    path: Seq<char>,
    move_to: Option<Seq<char>>,
    before: Seq<UpdateHunkView>,
    h: UpdateHunkView,
)
    requires
        !st.saw_end,
        st.section == (SectionView::Update { path, move_to, hunks: before }),
        before.len() > 0 ==> !before.last().at_eof,
        h.anchor matches Some(a) ==> nameable(a) && a[0] != '-',
        0 <= i,
        i + hunk_lines(h).len() <= ls.len(),
        ls.subrange(i, i + hunk_lines(h).len()) == hunk_lines(h),
    ensures
        fed(st, ls, i, i + hunk_lines(h).len()) == Some(
            ParserView {
                section: SectionView::Update { path, move_to, hunks: before.push(h) },
                ..st
            },
        ),
{
    let seg = hunk_lines(h);
    let n = h.lines.len() as int;
    assert forall|k: int| 0 <= k < seg.len() implies #[trigger] ls[i + k] == seg[k] by {
        assert(ls.subrange(i, i + seg.len())[k] == ls[i + k]);
    }
    let line = ls[i];
    assert(line == ls[i + 0]);
    assert(line == seg[0]);
    reveal_strlit("@@");
    reveal_strlit("@@ ");
    reveal_strlit("-");
    let rest = match h.anchor {
        Some(a) => " "@ + a,
        None => Seq::empty(),
    };
    reveal_strlit(" ");
    assert(line =~= "@@"@ + rest);
    lemma_prefixed("@@"@, rest);
    assert(line[0] == '@');
    assert(patch::anchor_view(rest) == h.anchor) by {
        match h.anchor {
            Some(a) => {
                assert(rest.drop_first() =~= a);
                assert(rest[0] == ' ');
                assert(text::trim_start_view(rest) == text::trim_start_view(a));
                assert(text::trim_view(rest) == a);
                lemma_starts_first(a, "-"@);
            },
            None => {
                assert(text::trim_start_view(rest) == rest);
                assert(text::trim_view(rest) == rest);
            },
        }
    }
    let opened = before.push(patch::bare_hunk(h.anchor));
    let a = ParserView { section: SectionView::Update { path, move_to, hunks: opened }, ..st };
    lemma_no_directive(st, line, (i + 1) as nat);
    lemma_fed_one(st, ls, i, a);
    assert forall|k: int| 0 <= k < h.lines.len() implies #[trigger] ls[(i + 1) + k] == marked(
        h.lines[k],
    ) by {
        assert(ls[i + (k + 1)] == seg[k + 1]);
    }
    lemma_body_lines(ls, i + 1, a, path, move_to, before, h, n);
    lemma_fed_on(st, ls, i, i + 1, i + 1 + n);
    assert(h.lines.take(n) =~= h.lines);
    let full = before.push(UpdateHunkView { anchor: h.anchor, lines: h.lines, at_eof: false });
    let b = ParserView { section: SectionView::Update { path, move_to, hunks: full }, ..st };
    if h.at_eof {
        lemma_directives(path);
        assert(ls[i + (n + 1)] == seg[n + 1]);
        assert(seg[n + 1] == "*** End of File"@);
        let c = ParserView {
            section: SectionView::Update { path, move_to, hunks: before.push(h) },
            ..st
        };
        assert(full.drop_last() =~= before);
        assert(patch::pin_last(full) =~= before.push(h));
        lemma_fed_one(b, ls, i + n + 1, c);
        lemma_fed_on(st, ls, i, i + 1 + n, i + n + 2);
    }
}

proof fn lemma_hunks(
    ls: Seq<Seq<char>>,
    i: int,
    st: ParserView,
    path: Seq<char>,
    move_to: Option<Seq<char>>,
    hunks: Seq<UpdateHunkView>,
    n: int,
)
    requires
        !st.saw_end,
        st.section == (SectionView::Update { path, move_to, hunks: Seq::empty() }),
        forall|k: int|
            0 <= k < hunks.len() ==> writable_hunk(#[trigger] hunks[k], k == hunks.len() - 1),
        0 <= i,
        0 <= n <= hunks.len(),
        i + all_hunk_lines(hunks.take(n)).len() <= ls.len(),
        ls.subrange(i, i + all_hunk_lines(hunks.take(n)).len()) == all_hunk_lines(hunks.take(n)),
    ensures
        fed(st, ls, i, i + all_hunk_lines(hunks.take(n)).len()) == Some(
            ParserView {
                section: SectionView::Update { path, move_to, hunks: hunks.take(n) },
                ..st
            },
        ),
    decreases n,
{
    if n > 0 {
        let part = hunks.take(n);
        let front = hunks.take(n - 1);
        assert(part.drop_last() =~= front);
        assert(part.last() == hunks[n - 1]);
        let one = all_hunk_lines(front);
        let two = hunk_lines(hunks[n - 1]);
        let all = all_hunk_lines(part);
        assert(all == one + two);
        assert(ls.subrange(i, i + one.len()) =~= one) by {
            assert forall|k: int| 0 <= k < one.len() implies ls.subrange(i, i + one.len())[k]
                == one[k] by {
                assert(ls.subrange(i, i + all.len())[k] == all[k]);
            }
        }
        let j = i + one.len();
        assert(ls.subrange(j, j + two.len()) =~= two) by {
            assert forall|k: int| 0 <= k < two.len() implies ls.subrange(j, j + two.len())[k]
                == two[k] by {
                assert(ls.subrange(i, i + all.len())[one.len() + k] == all[one.len() + k]);
            }
        }
        lemma_hunks(ls, i, st, path, move_to, hunks, n - 1);
        let mid = ParserView {
            section: SectionView::Update { path, move_to, hunks: front },
            ..st
        };
        if n > 1 {
            assert(front.last() == hunks[n - 2]);
            assert(writable_hunk(hunks[n - 2], false));
        }
        assert(writable_hunk(hunks[n - 1], n - 1 == hunks.len() - 1));
        lemma_hunk(ls, j, mid, path, move_to, front, hunks[n - 1]);
        lemma_fed_on(st, ls, i, j, i + all.len());
        assert(front.push(hunks[n - 1]) =~= part);
    } else {
        assert(hunks.take(0) =~= Seq::empty());
    }
}

proof fn lemma_section(ls: Seq<Seq<char>>, i: int, st: ParserView, ops: Seq<OpView>, d: Draft) -> (e:
    ParserView)
    requires
        !st.saw_end,
        patch::closed(st) == Ok::<Seq<OpView>, Seq<char>>(ops),
        writable(d),
        0 <= i,
        i + section_lines(d).len() <= ls.len(),
        ls.subrange(i, i + section_lines(d).len()) == section_lines(d),
    ensures
        fed(st, ls, i, i + section_lines(d).len()) == Some(e),
        !e.saw_end,
        patch::closed(e) == Ok::<Seq<OpView>, Seq<char>>(ops.push(meant(d))),
{
    let seg = section_lines(d);
    assert forall|k: int| 0 <= k < seg.len() implies #[trigger] ls[i + k] == seg[k] by {
        assert(ls.subrange(i, i + seg.len())[k] == ls[i + k]);
    }
    assert(ls[i] == ls[i + 0]);
    assert(ls[i] == seg[0]);
    match d {
        Draft::Add { path, lines } => {
            lemma_directives(path);
            lemma_prefixed("*** Add File: "@, path);
            let a = ParserView {
                ops,
                section: SectionView::Add { path, lines: Seq::empty() },
                saw_end: false,
            };
            lemma_fed_one(st, ls, i, a);
            assert forall|k: int| 0 <= k < lines.len() implies #[trigger] ls[(i + 1) + k] == "+"@
                + lines[k] by {
                assert(ls[i + (k + 1)] == seg[k + 1]);
            }
            lemma_added_lines(ls, i + 1, a, path, lines, lines.len() as int);
            lemma_fed_on(st, ls, i, i + 1, i + seg.len());
            assert(lines.take(lines.len() as int) =~= lines);
            ParserView { ops, section: SectionView::Add { path, lines }, saw_end: false }
        },
        Draft::Delete { path } => {
            lemma_directives(path);
            lemma_prefixed("*** Delete File: "@, path);
            let a = ParserView {
                ops: ops.push(OpView::Delete { path }),
                section: SectionView::Outside,
                saw_end: false,
            };
            lemma_fed_one(st, ls, i, a);
            a
        },
        Draft::Update { path, move_to, hunks } => {
            lemma_directives(path);
            lemma_prefixed("*** Update File: "@, path);
            let none = Seq::<UpdateHunkView>::empty();
            let a = ParserView {
                ops,
                section: SectionView::Update { path, move_to: None, hunks: none },
                saw_end: false,
            };
            lemma_fed_one(st, ls, i, a);
            let b = ParserView {
                ops,
                section: SectionView::Update { path, move_to, hunks: none },
                saw_end: false,
            };
            let j = match move_to {
                Some(dest) => {
                    lemma_directives(dest);
                    lemma_prefixed("*** Move to: "@, dest);
                    assert(ls[i + 1] == seg[1]);
                    lemma_fed_one(a, ls, i + 1, b);
                    lemma_fed_on(st, ls, i, i + 1, i + 2);
                    i + 2
                },
                None => i + 1,
            };
            let body = all_hunk_lines(hunks);
            assert(hunks.take(hunks.len() as int) =~= hunks);
            assert(ls.subrange(j, j + body.len()) =~= body) by {
                assert forall|k: int| 0 <= k < body.len() implies ls.subrange(
                    j,
                    j + body.len(),
                )[k] == body[k] by {
                    assert(ls[i + (j - i + k)] == seg[j - i + k]);
                }
            }
            lemma_hunks(ls, j, b, path, move_to, hunks, hunks.len() as int);
            lemma_fed_on(st, ls, i, j, i + seg.len());
            if move_to is None {
                let k = choose|k: int| 0 <= k < hunks.len() && (#[trigger] hunks[k]).lines.len() > 0;
                assert(!patch::all_bare(hunks));
            }
            ParserView {
                ops,
                section: SectionView::Update { path, move_to, hunks },
                saw_end: false,
            }
        },
    }
}

proof fn lemma_sections(ls: Seq<Seq<char>>, i: int, st: ParserView, ds: Seq<Draft>, n: int) -> (e:
    ParserView)
    requires
        !st.saw_end,
        patch::closed(st) == Ok::<Seq<OpView>, Seq<char>>(Seq::empty()),
        forall|k: int| 0 <= k < ds.len() ==> writable(#[trigger] ds[k]),
        0 <= i,
        0 <= n <= ds.len(),
        i + all_section_lines(ds.take(n)).len() <= ls.len(),
        ls.subrange(i, i + all_section_lines(ds.take(n)).len()) == all_section_lines(ds.take(n)),
    ensures
        fed(st, ls, i, i + all_section_lines(ds.take(n)).len()) == Some(e),
        !e.saw_end,
        patch::closed(e) == Ok::<Seq<OpView>, Seq<char>>(
            ds.take(n).map_values(|d: Draft| meant(d)),
        ),
    decreases n,
{
    if n > 0 {
        let part = ds.take(n);
        let front = ds.take(n - 1);
        assert(part.drop_last() =~= front);
        assert(part.last() == ds[n - 1]);
        let one = all_section_lines(front);
        let two = section_lines(ds[n - 1]);
        let all = all_section_lines(part);
        assert(all == one + two);
        assert(ls.subrange(i, i + one.len()) =~= one) by {
            assert forall|k: int| 0 <= k < one.len() implies ls.subrange(i, i + one.len())[k]
                == one[k] by {
                assert(ls.subrange(i, i + all.len())[k] == all[k]);
            }
        }
        let j = i + one.len();
        assert(ls.subrange(j, j + two.len()) =~= two) by {
            assert forall|k: int| 0 <= k < two.len() implies ls.subrange(j, j + two.len())[k]
                == two[k] by {
                assert(ls.subrange(i, i + all.len())[one.len() + k] == all[one.len() + k]);
            }
        }
        let mid = lemma_sections(ls, i, st, ds, n - 1);
        let ops = front.map_values(|d: Draft| meant(d));
        let e = lemma_section(ls, j, mid, ops, ds[n - 1]);
        lemma_fed_on(st, ls, i, j, i + all.len());
        assert(ops.push(meant(ds[n - 1])) =~= part.map_values(|d: Draft| meant(d)));
        e
    } else {
        assert(ds.take(0) =~= Seq::empty());
        assert(ds.take(0).map_values(|d: Draft| meant(d)) =~= Seq::empty());
        st
    }
}

/// Sections that are written between the two marks of an envelope are read back: added files with
/// their lines, removed ones, and updates with their destination, anchors, lines and pins.
pub proof fn written_patches_are_read_back(input: Seq<char>, ds: Seq<Draft>)
    requires
        ds.len() > 0,
        forall|k: int| 0 <= k < ds.len() ==> writable(#[trigger] ds[k]),
        patch::envelope_lines(input) == seq!["*** Begin Patch"@] + all_section_lines(ds)
            + seq!["*** End Patch"@],
    ensures
        patch::envelope_view(input) == Ok::<Seq<OpView>, Seq<char>>(
            ds.map_values(|d: Draft| meant(d)),
        ),
{
    let ls = patch::envelope_lines(input);
    let body = all_section_lines(ds);
    reveal_strlit("*** Begin Patch");
    let first = "*** Begin Patch"@;
    assert(ls[0] == first);
    assert(text::trim_view(first).len() > 0) by {
        assert(first[0] == '*');
        assert(!text::white('*'));
        assert(text::trim_start_view(first) == first);
        assert(first.last() == 'h');
    }
    assert(patch::first_filled(ls, 0) == 0);
    let start = ParserView { ops: Seq::empty(), section: SectionView::Outside, saw_end: false };
    assert(ds.take(ds.len() as int) =~= ds);
    assert(ls.subrange(1, 1 + body.len() as int) =~= body);
    let e = lemma_sections(ls, 1, start, ds, ds.len() as int);
    let n = ls.len() as int;
    assert(n == body.len() + 2);
    assert(ls[n - 1] == "*** End Patch"@);
    let ops = ds.map_values(|d: Draft| meant(d));
    let done = ParserView { ops, section: SectionView::Outside, saw_end: true };
    lemma_fed_one(e, ls, n - 1, done);
    lemma_fed_on(start, ls, 1, n - 1, n);
    lemma_fed_envelope(start, ls, 1);
}

proof fn lemma_ended(ls: Seq<Seq<char>>, i: int, st: ParserView)
    requires
        0 <= i <= ls.len(),
        patch::envelope_from(ls, i, st) is Ok,
    ensures
        st.saw_end ==> forall|k: int|
            i <= k < ls.len() ==> text::trim_view(#[trigger] ls[k]).len() == 0,
        !st.saw_end ==> exists|e: int|
            i <= e < ls.len() && #[trigger] ls[e] == "*** End Patch"@ && forall|k: int|
                e < k < ls.len() ==> text::trim_view(#[trigger] ls[k]).len() == 0,
    decreases ls.len() - i,
{
    if i < ls.len() {
        let next = patch::step_view(st, ls[i], (i + 1) as nat)->Ok_0;
        lemma_ended(ls, i + 1, next);
        if !st.saw_end && next.saw_end {
            assert(ls[i] == "*** End Patch"@);
        }
    }
}

/// An envelope that is read begins with its mark and ends with its mark: nothing but blank lines
/// comes before the one or after the other.
pub proof fn read_patches_stand_between_their_marks(input: Seq<char>)
    requires
        patch::envelope_view(input) is Ok,
    ensures
        ({
            let ls = patch::envelope_lines(input);
            exists|b: int, e: int|
                {
                    &&& 0 <= b < e < ls.len()
                    &&& #[trigger] ls[b] == "*** Begin Patch"@
                    &&& #[trigger] ls[e] == "*** End Patch"@
                    &&& forall|k: int|
                        0 <= k < b || e < k < ls.len() ==> text::trim_view(
                            #[trigger] ls[k],
                        ).len() == 0
                }
        }),
{
    let ls = patch::envelope_lines(input);
    let b = patch::first_filled(ls, 0);
    lemma_blank_before(ls, 0);
    let start = ParserView { ops: Seq::empty(), section: SectionView::Outside, saw_end: false };
    lemma_ended(ls, b + 1, start);
    let e = choose|e: int|
        b + 1 <= e < ls.len() && #[trigger] ls[e] == "*** End Patch"@ && forall|k: int|
            e < k < ls.len() ==> text::trim_view(#[trigger] ls[k]).len() == 0;
    assert(ls[b] == "*** Begin Patch"@ && ls[e] == "*** End Patch"@);
}

proof fn lemma_blank_before(ls: Seq<Seq<char>>, i: int)
    requires
        0 <= i,
    ensures
        i <= patch::first_filled(ls, i),
        forall|k: int|
            i <= k < patch::first_filled(ls, i) ==> text::trim_view(#[trigger] ls[k]).len() == 0,
    decreases ls.len() - i,
{
    if i < ls.len() && text::trim_view(ls[i]).len() == 0 {
        lemma_blank_before(ls, i + 1);
    }
}

/// A line that begins like a directive and is none is refused, wherever it stands before the end
/// mark; so is a line that is neither blank nor a directive between two sections, a line of an
/// added file without its mark, a line of a hunk without a mark, one behind a pinned hunk, and one
/// behind the end mark.
pub proof fn stray_lines_are_refused(st: ParserView, line: Seq<char>, no: nat)
    ensures
        !st.saw_end && text::starts(line, "***"@) && line != "*** End Patch"@ && line
            != "*** End of File"@ && !text::starts(line, "*** Add File: "@) && !text::starts(
            line,
            "*** Delete File: "@,
        ) && !text::starts(line, "*** Update File: "@) && !text::starts(line, "*** Move to: "@)
            ==> patch::step_view(st, line, no) is Err,
        st.saw_end && text::trim_view(line).len() > 0 ==> patch::step_view(st, line, no) is Err,
        !st.saw_end && st.section is Outside && text::trim_view(line).len() > 0 && line[0] != '*'
            && line.len() > 0 ==> patch::step_view(st, line, no) is Err,
        !st.saw_end && st.section is Add && line.len() > 0 && line[0] != '*' && line[0] != '+'
            ==> patch::step_view(st, line, no) is Err,
        !st.saw_end && st.section is Update && line.len() > 0 && line[0] != '*' && line[0] != '+'
            && line[0] != '-' && line[0] != ' ' && line[0] != '@' && line[0] != '\\'
            && text::trim_view(line).len() > 0 ==> patch::step_view(st, line, no) is Err,
        !st.saw_end && (st.section matches SectionView::Update { hunks, .. } && hunks.len() > 0
            && hunks.last().at_eof) && text::trim_view(line).len() > 0 && line.len() > 0 && line[0]
            != '*' ==> patch::step_view(st, line, no) is Err,
{
    reveal_strlit("+");
    reveal_strlit("-");
    reveal_strlit(" ");
    reveal_strlit("@@");
    reveal_strlit("\\");
    if line.len() > 0 && line[0] != '*' && !st.saw_end {
        lemma_no_directive(st, line, no);
        lemma_starts_first(line, "+"@);
        lemma_starts_first(line, "-"@);
        lemma_starts_first(line, " "@);
        lemma_starts_first(line, "@@"@);
        lemma_starts_first(line, "\\"@);
    }
}

/// A marker with text behind it names that text as the anchor; one with nothing behind it names
/// nothing.
pub proof fn markers_name_their_anchor(lead: Seq<char>, name: Seq<char>)
    requires
        nameable(name),
        forall|i: int| 0 <= i < lead.len() ==> text::white(#[trigger] lead[i]),
    ensures
        patch::anchor_view(lead) is None,
        name[0] != '-' ==> patch::anchor_view(lead + name) == Some(name),
{
    reveal_strlit("-");
    lemma_white_front(lead, name);
    lemma_white_front(lead, Seq::empty());
    assert(lead + Seq::<char>::empty() =~= lead);
    assert(text::trim_view(Seq::<char>::empty()).len() == 0);
    lemma_starts_first(name, "-"@);
}

/// Of a marker with line ranges between two `@@` only what follows the last of them is the anchor.
pub proof fn ranges_are_no_anchor(ranges: Seq<char>, lead: Seq<char>, name: Seq<char>)
    requires
        ranges.len() > 0,
        ranges[0] == '-',
        nameable(name),
        forall|i: int| 0 <= i < lead.len() ==> text::white(#[trigger] lead[i]),
        forall|i: int|
            ranges.len() < i ==> !#[trigger] text::stands_at(
                ranges + "@@"@ + lead + name,
                "@@"@,
                i,
            ),
    ensures
        patch::anchor_view(ranges + "@@"@ + lead + name) == Some(name),
{
    reveal_strlit("-");
    reveal_strlit("@@");
    let t = ranges + "@@"@ + lead + name;
    let at = ranges.len() as int;
    assert(t[0] == '-');
    assert(text::trim_start_view(t) == t);
    assert(t.last() == name.last());
    lemma_trimmed_ends(name);
    assert(text::trim_view(t) == t);
    assert(t.subrange(0, 1) =~= "-"@);
    assert(t.subrange(at, at + 2) =~= "@@"@);
    assert(text::stands_at(t, "@@"@, at));
    lemma_last_from(t, "@@"@, t.len() - 2, at);
    assert(t.skip(at + 2) =~= lead + name);
    lemma_white_front(lead, name);
}

proof fn lemma_last_from(s: Seq<char>, p: Seq<char>, i: int, at: int)
    requires
        0 <= at <= i,
        text::stands_at(s, p, at),
        forall|k: int| at < k <= i ==> !#[trigger] text::stands_at(s, p, k),
    ensures
        text::last_from(s, p, i) == Some(at),
    decreases i,
{
    if at < i {
        lemma_last_from(s, p, i - 1, at);
    }
}

proof fn lemma_trimmed_ends(s: Seq<char>)
    requires
        nameable(s),
    ensures
        !text::white(s.last()),
        !text::white(s[0]),
{
    lemma_start_shrinks(s);
    let t = text::trim_start_view(s);
    lemma_end_shrinks(t);
}

proof fn lemma_start_shrinks(s: Seq<char>)
    ensures
        text::trim_start_view(s).len() <= s.len(),
        s.len() > 0 && text::white(s[0]) ==> text::trim_start_view(s).len() < s.len(),
    decreases s.len(),
{
    if s.len() > 0 && text::white(s[0]) {
        lemma_start_shrinks(s.drop_first());
    }
}

proof fn lemma_end_shrinks(s: Seq<char>)
    ensures
        text::trim_end_view(s).len() <= s.len(),
        s.len() > 0 && text::white(s.last()) ==> text::trim_end_view(s).len() < s.len(),
    decreases s.len(),
{
    if s.len() > 0 && text::white(s.last()) {
        lemma_end_shrinks(s.drop_last());
    }
}

proof fn lemma_white_front(lead: Seq<char>, s: Seq<char>)
    requires
        forall|i: int| 0 <= i < lead.len() ==> text::white(#[trigger] lead[i]),
    ensures
        text::trim_view(lead + s) == text::trim_view(s),
    decreases lead.len(),
{
    if lead.len() > 0 {
        let rest = lead.drop_first();
        assert((lead + s).drop_first() =~= rest + s);
        assert((lead + s)[0] == lead[0]);
        assert forall|i: int| 0 <= i < rest.len() implies text::white(#[trigger] rest[i]) by {
            assert(rest[i] == lead[i + 1]);
        }
        lemma_white_front(rest, s);
    } else {
        assert(lead + s =~= s);
    }
}

} // verus!
