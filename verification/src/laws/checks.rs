//! What a check of a project finds, counts and reports.

use vstd::prelude::*;

use crate::bytes;
use crate::check;
use crate::check::{Checker, Confinement, ProjectKind, ScopeFacts};
use crate::codec;
use crate::diagnostics;
use crate::diagnostics::{DiagnosticsView, FailureLayer, Level};
use crate::json;
use crate::json::JsonView;
use crate::laws::commands;
use crate::laws::texts;
use crate::laws::values;
use crate::text;
use crate::tool::ToolResultView;

verus! {

/// Whether `shown` is `line` on one line, cut to five hundred bytes where it is longer.
#[verifier::opaque]
pub open spec fn shortened(line: Seq<char>, shown: Seq<char>) -> bool {
    let one = line.map_values(
        |c: char|
            if c == '\n' {
                ' '
            } else {
                c
            },
    );
    &&& bytes::byte_len(one) <= 500 ==> shown == one
    &&& bytes::byte_len(one) > 500 ==> exists|n: int|
        {
            &&& 0 <= n < one.len()
            &&& shown == #[trigger] one.take(n) + "…"@
            &&& bytes::byte_len(one.take(n)) <= 500
            &&& bytes::byte_len(one.take(n + 1)) > 500
        }
}

proof fn lemma_shortened(line: Seq<char>)
    ensures
        shortened(line, diagnostics::listed(line)),
{
    reveal(shortened);
    let one = line.map_values(
        |c: char|
            if c == '\n' {
                ' '
            } else {
                c
            },
    );
    assert(diagnostics::flat(line) =~= one);
    bytes::head_is_longest(one, 500);
    if bytes::byte_len(one) > 500 {
        let n = bytes::head(one, 500).len() as int;
        if n == one.len() {
            assert(one.take(n) =~= one);
        }
        assert(diagnostics::listed(line) == one.take(n) + "…"@);
    }
}

/// A line without a line feed that takes at most five hundred bytes is listed as it is.
pub proof fn short_lines_are_listed_as_they_are(line: Seq<char>)
    requires
        bytes::byte_len(line) <= 500,
        !line.contains('\n'),
    ensures
        diagnostics::listed(line) == line,
{
    assert forall|i: int| 0 <= i < line.len() implies line[i] != '\n' by {
        assert(line.contains(line[i]));
    }
    assert(diagnostics::flat(line) =~= line);
}

/// Whether a finding is of a level.
pub open spec fn is_of(f: Option<(Seq<char>, Level)>, level: Level) -> bool {
    f matches Some((_, l)) && l == level
}

/// How many of the first `n` findings are of a level.
pub open spec fn how_many(found: Seq<Option<(Seq<char>, Level)>>, level: Level, n: int) -> nat {
    found.take(n).filter(|f: Option<(Seq<char>, Level)>| is_of(f, level)).len()
}

/// Every finding is listed, shortened.
pub proof fn findings_are_listed(found: Seq<Option<(Seq<char>, Level)>>, n: int, i: int)
    requires
        0 <= i < n <= found.len(),
        found[i] is Some,
    ensures
        exists|k: int|
            0 <= k < diagnostics::gathered(found, n).lines.len() && shortened(
                (found[i]->0).0,
                #[trigger] diagnostics::gathered(found, n).lines[k],
            ),
    decreases n,
{
    let d = diagnostics::gathered(found, n);
    let b = diagnostics::gathered(found, n - 1);
    if i < n - 1 {
        findings_are_listed(found, n - 1, i);
        let k = choose|k: int|
            0 <= k < b.lines.len() && shortened((found[i]->0).0, #[trigger] b.lines[k]);
        assert(d.lines[k] == b.lines[k]);
    } else {
        let line = (found[i]->0).0;
        lemma_shortened(line);
        let s = diagnostics::listed(line);
        if b.lines.contains(s) {
            let k = choose|k: int| 0 <= k < b.lines.len() && b.lines[k] == s;
            assert(shortened(line, d.lines[k]));
        } else {
            assert(shortened(line, d.lines[d.lines.len() - 1]));
        }
    }
}

/// Nothing is listed but findings, shortened.
pub proof fn listed_lines_are_findings(found: Seq<Option<(Seq<char>, Level)>>, n: int, k: int)
    requires
        0 <= n <= found.len(),
        0 <= k < diagnostics::gathered(found, n).lines.len(),
    ensures
        exists|i: int|
            0 <= i < n && (#[trigger] found[i]) is Some && shortened(
                (found[i]->0).0,
                diagnostics::gathered(found, n).lines[k],
            ),
    decreases n,
{
    let d = diagnostics::gathered(found, n);
    let b = diagnostics::gathered(found, n - 1);
    if k < b.lines.len() {
        listed_lines_are_findings(found, n - 1, k);
        assert(d.lines[k] == b.lines[k]);
        let i = choose|i: int|
            0 <= i < n - 1 && (#[trigger] found[i]) is Some && shortened(
                (found[i]->0).0,
                b.lines[k],
            );
        assert(found[i] is Some);
    } else {
        lemma_shortened((found[n - 1]->0).0);
        assert(found[n - 1] is Some);
    }
}

/// Findings that are all errors count as errors, and those that are all warnings as warnings; no
/// finding is listed or counted twice.
pub proof fn findings_are_counted(found: Seq<Option<(Seq<char>, Level)>>, n: int)
    requires
        0 <= n <= found.len(),
    ensures
        ({
            let d = diagnostics::gathered(found, n);
            &&& (forall|i: int|
                0 <= i < n && (#[trigger] found[i]) is Some ==> (found[i]->0).1 == Level::Error)
                ==> d.errors == d.lines.len() && d.warnings == 0
            &&& (forall|i: int|
                0 <= i < n && (#[trigger] found[i]) is Some ==> (found[i]->0).1 == Level::Warning)
                ==> d.warnings == d.lines.len() && d.errors == 0
            &&& d.errors + d.warnings == d.lines.len()
            &&& d.errors >= 0
            &&& d.warnings >= 0
            &&& d.lines.no_duplicates()
        }),
    decreases n,
{
    diagnostics::gathered_is_ok(found, n);
    if n > 0 {
        findings_are_counted(found, n - 1);
    }
}

/// What was found first is listed first: the list of the first findings begins the list of all.
pub proof fn findings_keep_their_order(
    found: Seq<Option<(Seq<char>, Level)>>,
    m: int,
    n: int,
)
    requires
        0 <= m <= n <= found.len(),
    ensures
        diagnostics::gathered(found, m).lines.is_prefix_of(diagnostics::gathered(found, n).lines),
    decreases n - m,
{
    if m < n {
        findings_keep_their_order(found, m, n - 1);
        let a = diagnostics::gathered(found, m).lines;
        let b = diagnostics::gathered(found, n - 1).lines;
        let d = diagnostics::gathered(found, n).lines;
        assert(d == b || d.drop_last() =~= b);
        assert(d.subrange(0, a.len() as int) =~= b.subrange(0, a.len() as int));
    }
}

/// Where no two findings are listed alike, each is listed, and as many errors and warnings are
/// counted as there are.
pub proof fn different_findings_are_all_counted(found: Seq<Option<(Seq<char>, Level)>>, n: int)
    requires
        0 <= n <= found.len(),
        forall|i: int, j: int|
            0 <= i < j < found.len() && (#[trigger] found[i]) is Some && (#[trigger] found[j])
                is Some ==> diagnostics::listed((found[i]->0).0) != diagnostics::listed(
                (found[j]->0).0,
            ),
    ensures
        diagnostics::gathered(found, n).errors == how_many(found, Level::Error, n),
        diagnostics::gathered(found, n).warnings == how_many(found, Level::Warning, n),
        forall|k: int|
            0 <= k < diagnostics::gathered(found, n).lines.len() ==> exists|i: int|
                0 <= i < n && (#[trigger] found[i]) is Some && diagnostics::listed((found[i]->0).0)
                    == #[trigger] diagnostics::gathered(found, n).lines[k],
    decreases n,
{
    reveal(Seq::filter);
    let e = |f: Option<(Seq<char>, Level)>| is_of(f, Level::Error);
    let w = |f: Option<(Seq<char>, Level)>| is_of(f, Level::Warning);
    if n > 0 {
        different_findings_are_all_counted(found, n - 1);
        assert(found.take(n).drop_last() =~= found.take(n - 1));
        assert(found.take(n).last() == found[n - 1]);
        let b = diagnostics::gathered(found, n - 1);
        let d = diagnostics::gathered(found, n);
        if let Some((line, level)) = found[n - 1] {
            let s = diagnostics::listed(line);
            if b.lines.contains(s) {
                let k = choose|k: int| 0 <= k < b.lines.len() && b.lines[k] == s;
                let i = choose|i: int|
                    0 <= i < n - 1 && (#[trigger] found[i]) is Some && diagnostics::listed(
                        (found[i]->0).0,
                    ) == b.lines[k];
                assert(found[i] is Some && found[n - 1] is Some);
            }
        }
        assert forall|k: int| 0 <= k < d.lines.len() implies exists|i: int|
            0 <= i < n && (#[trigger] found[i]) is Some && diagnostics::listed((found[i]->0).0)
                == #[trigger] d.lines[k] by {
            if k < b.lines.len() {
                assert(d.lines[k] == b.lines[k]);
                let i = choose|i: int|
                    0 <= i < n - 1 && (#[trigger] found[i]) is Some && diagnostics::listed(
                        (found[i]->0).0,
                    ) == b.lines[k];
                assert(found[i] is Some);
            } else {
                assert(found[n - 1] is Some);
            }
        }
    }
}

/// Whether a line names a place: somewhere in it digits stand between two colons.
pub open spec fn names_a_place(line: Seq<char>) -> bool {
    exists|a: int, b: int|
        0 <= a && a + 1 < b < line.len() && #[trigger] line[a] == ':' && #[trigger] line[b] == ':'
            && texts::all_digits(line.subrange(a + 1, b))
}

proof fn lemma_places(line: Seq<char>)
    ensures
        names_a_place(line) <==> diagnostics::has_number_segment(line),
{
    if names_a_place(line) {
        let (a, b) = choose|a: int, b: int|
            0 <= a && a + 1 < b < line.len() && #[trigger] line[a] == ':' && #[trigger] line[b]
                == ':' && texts::all_digits(line.subrange(a + 1, b));
        assert forall|k: int| a < k < b implies text::digit_value(#[trigger] line[k]) is Some by {
            assert(line[k] == line.subrange(a + 1, b)[k - a - 1]);
        }
        assert(diagnostics::number_segment(line, a, b));
    }
    if diagnostics::has_number_segment(line) {
        let (a, b) = choose|a: int, b: int| diagnostics::number_segment(line, a, b);
        let part = line.subrange(a + 1, b);
        assert forall|i: int| 0 <= i < part.len() implies texts::is_digit(#[trigger] part[i]) by {
            assert(part[i] == line[a + 1 + i]);
            assert(text::digit_value(line[a + 1 + i]) is Some);
        }
        assert(line[a] == ':' && line[b] == ':');
    }
}

/// Whether a line of `go vet` is a finding: it names a place and is no heading.
pub open spec fn is_vetted(line: Seq<char>) -> bool {
    names_a_place(line) && line[0] != '#'
}

proof fn lemma_vetted(line: Seq<char>)
    ensures
        diagnostics::vet_line(line) == (if is_vetted(line) {
            Some((line, Level::Error))
        } else {
            None
        }),
{
    lemma_places(line);
    reveal_strlit("#");
    if line.len() > 0 {
        assert(line.subrange(0, 1)[0] == line[0]);
        if line[0] == '#' {
            assert(line.subrange(0, 1) =~= "#"@);
        }
    }
}

proof fn lemma_vet(stdout: Seq<char>, stderr: Seq<char>) -> (found: Seq<
    Option<(Seq<char>, Level)>,
>)
    ensures
        check::found_by(ProjectKind::Go, stdout, stderr) == diagnostics::gathered(
            found,
            found.len() as int,
        ),
        found.len() == text::lines_view(stderr).len(),
        forall|i: int|
            0 <= i < found.len() ==> #[trigger] found[i] == (if is_vetted(
                text::trim_end_view(text::lines_view(stderr)[i]),
            ) {
                Some((text::trim_end_view(text::lines_view(stderr)[i]), Level::Error))
            } else {
                None
            }),
{
    let ls = text::lines_view(stderr);
    let read = |l: Seq<char>| diagnostics::vet_line(text::trim_end_view(l));
    let found = diagnostics::found_in(ls, read);
    assert forall|i: int| 0 <= i < found.len() implies #[trigger] found[i] == (if is_vetted(
        text::trim_end_view(ls[i]),
    ) {
        Some((text::trim_end_view(ls[i]), Level::Error))
    } else {
        None
    }) by {
        lemma_vetted(text::trim_end_view(ls[i]));
    }
    found
}

/// Each finding that `go vet` writes to its error stream is listed and counted as an error,
/// whatever it writes elsewhere.
pub proof fn vet_findings_are_errors(stdout: Seq<char>, stderr: Seq<char>, i: int)
    requires
        0 <= i < text::lines_view(stderr).len(),
        is_vetted(text::trim_end_view(text::lines_view(stderr)[i])),
    ensures
        ({
            let d = check::found_by(ProjectKind::Go, stdout, stderr);
            let line = text::trim_end_view(text::lines_view(stderr)[i]);
            &&& exists|k: int| 0 <= k < d.lines.len() && shortened(line, #[trigger] d.lines[k])
            &&& d.errors == d.lines.len()
            &&& d.errors > 0
            &&& d.warnings == 0
        }),
{
    let found = lemma_vet(stdout, stderr);
    findings_are_counted(found, found.len() as int);
    findings_are_listed(found, found.len() as int, i);
}

/// Nothing is listed of `go vet` but the findings on its error stream.
pub proof fn vet_finds_nothing_else(stdout: Seq<char>, stderr: Seq<char>, k: int)
    requires
        0 <= k < check::found_by(ProjectKind::Go, stdout, stderr).lines.len(),
    ensures
        ({
            let d = check::found_by(ProjectKind::Go, stdout, stderr);
            let ls = text::lines_view(stderr);
            exists|i: int|
                0 <= i < ls.len() && is_vetted(text::trim_end_view(#[trigger] ls[i])) && shortened(
                    text::trim_end_view(ls[i]),
                    d.lines[k],
                )
        }),
{
    let d = check::found_by(ProjectKind::Go, stdout, stderr);
    let ls = text::lines_view(stderr);
    let found = lemma_vet(stdout, stderr);
    listed_lines_are_findings(found, found.len() as int, k);
    let i = choose|i: int|
        0 <= i < found.len() && (#[trigger] found[i]) is Some && shortened(
            (found[i]->0).0,
            d.lines[k],
        );
    assert(is_vetted(text::trim_end_view(ls[i])));
}

/// Which streams a check reads its diagnostics from: `go vet` writes them to its error stream, the
/// others to their output.
pub proof fn checks_read_their_own_stream(out: Seq<char>, err: Seq<char>, other: Seq<char>)
    ensures
        check::found_by(ProjectKind::Rust, out, err) == check::found_by(
            ProjectKind::Rust,
            out,
            other,
        ),
        check::found_by(ProjectKind::TypeScript, out, err) == check::found_by(
            ProjectKind::TypeScript,
            out,
            other,
        ),
        check::found_by(ProjectKind::Go, out, err) == check::found_by(ProjectKind::Go, other, err),
{
}

/// Whether an object has a member of that name and value.
pub open spec fn holds(j: JsonView, key: Seq<char>, value: JsonView) -> bool {
    j matches JsonView::Object(fields) && fields.contains((key, value))
}

/// Whether a result records that a check ran and found so many errors and warnings.
pub open spec fn records(metadata: Option<JsonView>, errors: int, warnings: int) -> bool {
    exists|v: JsonView|
        {
            &&& metadata is Some
            &&& #[trigger] holds(metadata->0, "validation"@, v)
            &&& holds(v, "ran"@, JsonView::Bool(true))
            &&& holds(v, "errors"@, JsonView::Int(errors))
            &&& holds(v, "warnings"@, JsonView::Int(warnings))
            &&& holds(v, "adapter"@, JsonView::Text("check"@))
            &&& holds(v, "schema"@, JsonView::Text("octos.validation.v1"@))
        }
}

proof fn lemma_records(errors: int, warnings: int)
    ensures
        records(Some(check::validation_view(errors, warnings)), errors, warnings),
{
    let m = check::validation_view(errors, warnings);
    let outer = m->Object_0;
    let v = outer[0].1;
    let f = v->Object_0;
    assert(outer.contains(("validation"@, v))) by {
        assert(outer[0] == ("validation"@, v));
    }
    assert(f.contains(("schema"@, JsonView::Text("octos.validation.v1"@)))) by {
        assert(f[0] == ("schema"@, JsonView::Text("octos.validation.v1"@)));
    }
    assert(f.contains(("adapter"@, JsonView::Text("check"@)))) by {
        assert(f[1] == ("adapter"@, JsonView::Text("check"@)));
    }
    assert(f.contains(("ran"@, JsonView::Bool(true)))) by {
        assert(f[2] == ("ran"@, JsonView::Bool(true)));
    }
    assert(f.contains(("errors"@, JsonView::Int(errors)))) by {
        assert(f[3] == ("errors"@, JsonView::Int(errors)));
    }
    assert(f.contains(("warnings"@, JsonView::Int(warnings)))) by {
        assert(f[4] == ("warnings"@, JsonView::Int(warnings)));
    }
    assert(holds(m, "validation"@, v));
    let metadata = Some(m);
    assert(metadata is Some && holds(metadata->0, "validation"@, v));
}

proof fn lemma_fed_has(ls: Seq<Seq<char>>, n: int, k: int)
    requires
        0 <= k < n <= ls.len(),
    ensures
        text::has(diagnostics::fed(ls, n), ls[k] + "\n"@),
    decreases n,
{
    let f = diagnostics::fed(ls, n);
    let b = diagnostics::fed(ls, n - 1);
    if k == n - 1 {
        let p = ls[k] + "\n"@;
        assert(f =~= b + p);
        assert(f.subrange(b.len() as int, b.len() + p.len() as int) =~= p);
        assert(text::stands_at(f, p, b.len() as int));
    } else {
        lemma_fed_has(ls, n - 1, k);
        let p = ls[k] + "\n"@;
        let i = choose|i: int| text::stands_at(b, p, i);
        assert(b.subrange(i, i + p.len()) == p);
        assert(f.subrange(i, i + p.len()) =~= p);
        assert(text::stands_at(f, p, i));
    }
}

proof fn lemma_has_in(before: Seq<char>, s: Seq<char>, after: Seq<char>, p: Seq<char>)
    requires
        text::has(s, p),
    ensures
        text::has(before + s + after, p),
{
    let all = before + s + after;
    let i = choose|i: int| text::stands_at(s, p, i);
    assert(s.subrange(i, i + p.len()) == p);
    assert(all.subrange(before.len() + i, before.len() + i + p.len()) =~= p);
    assert(text::stands_at(all, p, before.len() + i));
}

/// A report on diagnostics begins with the name of the check and the counts; it lists the first
/// fifty diagnostics, each on a line of its own, and says how many more there are.
pub proof fn reports_list_fifty_diagnostics(
    label: Seq<char>,
    d: DiagnosticsView,
    code: Option<i32>,
    tail: Option<Seq<char>>,
)
    requires
        d.lines.len() > 0,
        d.errors >= 0,
        d.warnings >= 0,
    ensures
        ({
            let said = diagnostics::report_view(label, d, code, tail);
            let n = d.lines.len();
            &&& text::starts(
                said,
                label + ": "@ + diagnostics::counted(d.errors as nat, "error"@) + ", "@
                    + diagnostics::counted(d.warnings as nat, "warning"@) + "\n\n"@,
            )
            &&& forall|k: int|
                0 <= k < n && k < 50 ==> text::has(said, #[trigger] d.lines[k] + "\n"@)
            &&& n <= 50 ==> text::ends(said, d.lines[n - 1] + "\n"@)
            &&& n > 50 ==> text::ends(
                said,
                d.lines[49] + "\n"@ + "... and "@ + text::dec((n - 50) as nat)
                    + " more diagnostics\n"@,
            )
        }),
{
    let said = diagnostics::report_view(label, d, code, tail);
    let n = d.lines.len();
    let lead = label + ": "@ + diagnostics::counted(d.errors as nat, "error"@) + ", "@
        + diagnostics::counted(d.warnings as nat, "warning"@) + "\n\n"@;
    let m: int = if n <= 50 {
        n as int
    } else {
        50
    };
    let list = diagnostics::fed(d.lines, m);
    let rest = diagnostics::remainder_text(n as int);
    assert(said == lead + list + rest);
    assert(said.subrange(0, lead.len() as int) =~= lead);
    assert forall|k: int| 0 <= k < n && k < 50 implies text::has(
        said,
        #[trigger] d.lines[k] + "\n"@,
    ) by {
        lemma_fed_has(d.lines, m, k);
        lemma_has_in(lead, list, rest, d.lines[k] + "\n"@);
    }
    let last = d.lines[m - 1] + "\n"@;
    assert(list =~= diagnostics::fed(d.lines, m - 1) + last);
    if n <= 50 {
        assert(said.subrange(said.len() - last.len(), said.len() as int) =~= last);
    } else {
        let end = d.lines[49] + "\n"@ + "... and "@ + text::dec((n - 50) as nat)
            + " more diagnostics\n"@;
        assert(end =~= last + rest);
        assert(said.subrange(said.len() - end.len(), said.len() as int) =~= end);
    }
}

/// One thing is counted in the singular, any other number of things in the plural.
pub proof fn counts_have_a_plural(n: nat, noun: Seq<char>)
    ensures
        n == 1 ==> diagnostics::counted(n, noun) == "1 "@ + noun,
        n != 1 ==> diagnostics::counted(n, noun) == text::dec(n) + " "@ + noun + "s"@,
{
}

/// A run of `go vet` whose error stream holds a finding lists that finding and records it as an
/// error, whatever is on its output and whatever its exit code is.
pub proof fn vet_findings_are_reported(
    stdout: Seq<u8>,
    stderr: Seq<u8>,
    code: Option<i32>,
    i: int,
)
    requires
        ({
            let ls = text::lines_view(bytes::lossy(stderr));
            0 <= i < ls.len() && is_vetted(text::trim_end_view(ls[i]))
        }),
    ensures
        ({
            let ls = text::lines_view(bytes::lossy(stderr));
            let line = text::trim_end_view(ls[i]);
            let r = check::finished_view(ProjectKind::Go, stdout, stderr, code);
            let d = check::found_by(ProjectKind::Go, bytes::lossy(stdout), bytes::lossy(stderr));
            &&& r.success
            &&& d.errors >= 1
            &&& d.warnings == 0
            &&& records(r.structured_metadata, d.errors, 0)
            &&& exists|k: int|
                0 <= k < d.lines.len() && shortened(line, #[trigger] d.lines[k]) && (k < 50
                    ==> text::has(r.output, d.lines[k] + "\n"@))
            &&& text::starts(
                r.output,
                "go vet"@ + ": "@ + diagnostics::counted(d.errors as nat, "error"@),
            )
        }),
{
    let out = bytes::lossy(stdout);
    let err = bytes::lossy(stderr);
    let ls = text::lines_view(err);
    let line = text::trim_end_view(ls[i]);
    let r = check::finished_view(ProjectKind::Go, stdout, stderr, code);
    let d = check::found_by(ProjectKind::Go, out, err);
    vet_findings_are_errors(out, err, i);
    let k = choose|k: int| 0 <= k < d.lines.len() && shortened(line, #[trigger] d.lines[k]);
    lemma_records(d.errors, d.warnings);
    let tail = Some(diagnostics::last_chars(check::raw_of(out, err), 4000));
    reports_list_fifty_diagnostics("go vet"@, d, code, tail);
    let said = diagnostics::report_view("go vet"@, d, code, tail);
    assert(r.output == said);
    let lead = "go vet"@ + ": "@ + diagnostics::counted(d.errors as nat, "error"@);
    let more = ", "@ + diagnostics::counted(d.warnings as nat, "warning"@) + "\n\n"@;
    let whole = "go vet"@ + ": "@ + diagnostics::counted(d.errors as nat, "error"@) + ", "@
        + diagnostics::counted(d.warnings as nat, "warning"@) + "\n\n"@;
    assert(said.subrange(0, whole.len() as int) == whole);
    assert(whole =~= lead + more);
    assert(said.subrange(0, lead.len() as int) =~= lead);
    assert(shortened(line, d.lines[k]));
}

/// A check that ran is an answer. It says that all is clean exactly where the checker succeeded and
/// nothing was found; that it ran is recorded, with the counts, where it succeeded or an error was
/// found, and nowhere else.
pub proof fn checks_record_what_can_be_trusted(
    kind: ProjectKind,
    stdout: Seq<u8>,
    stderr: Seq<u8>,
    code: Option<i32>,
)
    ensures
        ({
            let r = check::finished_view(kind, stdout, stderr, code);
            let d = check::found_by(kind, bytes::lossy(stdout), bytes::lossy(stderr));
            &&& r.success
            &&& r.file_modified is None
            &&& code == Some(0i32) || d.errors > 0 ==> records(
                r.structured_metadata,
                d.errors,
                d.warnings,
            )
            &&& code != Some(0i32) && d.errors <= 0 ==> r.structured_metadata is None
            &&& code == Some(0i32) && d.lines.len() == 0 ==> r.output == check::label_of(kind)
                + ": clean (no errors or warnings)"@
            &&& code is Some && code != Some(0i32) && d.lines.len() == 0 ==> text::starts(
                r.output,
                check::label_of(kind) + ": exit code "@ + text::signed(code->0 as int),
            )
        }),
{
    let out = bytes::lossy(stdout);
    let err = bytes::lossy(stderr);
    let r = check::finished_view(kind, stdout, stderr, code);
    let d = check::found_by(kind, out, err);
    lemma_records(d.errors, d.warnings);
    if code is Some && code != Some(0i32) && d.lines.len() == 0 {
        let lead = check::label_of(kind) + ": exit code "@ + text::signed(code->0 as int);
        assert(r.output.subrange(0, lead.len() as int) =~= lead);
    }
}

/// Where a checker fails without a diagnostic, the report ends with the end of its output: its error
/// stream, unless that is blank. At most four thousand characters of it are looked at.
pub proof fn failed_checks_show_the_end_of_their_output(
    kind: ProjectKind,
    stdout: Seq<u8>,
    stderr: Seq<u8>,
    code: Option<i32>,
)
    requires
        code != Some(0i32),
        check::found_by(kind, bytes::lossy(stdout), bytes::lossy(stderr)).lines.len() == 0,
    ensures
        ({
            let r = check::finished_view(kind, stdout, stderr, code);
            let out = bytes::lossy(stdout);
            let err = bytes::lossy(stderr);
            &&& text::trim_view(err).len() > 0 && err.len() <= 4000 ==> text::ends(
                r.output,
                ". Output tail:\n"@ + text::trim_view(err),
            )
            &&& text::trim_view(err).len() == 0 && text::trim_view(out).len() > 0 && out.len()
                <= 4000 ==> text::ends(r.output, ". Output tail:\n"@ + text::trim_view(out))
            &&& text::trim_view(err).len() > 0 && err.len() > 4000 && text::trim_view(
                err.skip(err.len() - 4000),
            ).len() > 0 ==> text::ends(
                r.output,
                ". Output tail:\n"@ + text::trim_view(err.skip(err.len() - 4000)),
            )
            &&& text::trim_view(err).len() == 0 && text::trim_view(out).len() == 0 && out.len()
                <= 4000 ==> text::ends(r.output, ", no diagnostics reported"@)
        }),
{
    let r = check::finished_view(kind, stdout, stderr, code);
    let out = bytes::lossy(stdout);
    let err = bytes::lossy(stderr);
    let raw = check::raw_of(out, err);
    let tail = text::trim_view(diagnostics::last_chars(raw, 4000));
    if tail.len() > 0 {
        let end = ". Output tail:\n"@ + tail;
        assert(r.output.subrange(r.output.len() - end.len(), r.output.len() as int) =~= end);
    } else {
        let end = ", no diagnostics reported"@;
        assert(r.output.subrange(r.output.len() - end.len(), r.output.len() as int) =~= end);
    }
}

/// A denied access is what a failure is put down to wherever the output names one; otherwise a
/// missing project, then a missing checker, then the network, each where the output names it.
pub proof fn failures_are_put_down_to_what_is_named(raw: Seq<char>)
    ensures
        ({
            let denied = text::has(raw, "Operation not permitted"@) || text::has(
                raw,
                "Permission denied"@,
            ) || text::has(raw, "Read-only file system"@);
            let lost = text::has(raw, "could not find `Cargo.toml`"@) || text::has(
                raw,
                "no `tsconfig.json`"@,
            ) || text::has(raw, "go.mod file not found"@);
            let missing = text::has(raw, "command not found"@) || text::has(
                raw,
                "No such file or directory"@,
            ) || text::has(raw, "not recognized as an internal or external command"@);
            let unreached = text::has(raw, "failed to download"@) || text::has(
                raw,
                "Connection refused"@,
            ) || text::has(raw, "could not resolve host"@) || text::has(raw, "network failure"@)
                || text::has(raw, "failed to fetch"@);
            let layer = diagnostics::failure_layer(raw);
            &&& layer == Some(FailureLayer::Access) <==> denied
            &&& layer == Some(FailureLayer::Manifest) <==> !denied && lost
            &&& layer == Some(FailureLayer::Toolchain) <==> !denied && !lost && missing
            &&& layer == Some(FailureLayer::Network) <==> !denied && !lost && !missing && unreached
            &&& layer is None <==> !denied && !lost && !missing && !unreached
        }),
{
}

/// The word of a level.
pub open spec fn word_of(level: Level) -> Seq<char> {
    if level == Level::Error {
        "error"@
    } else {
        "warning"@
    }
}

/// A line of the TypeScript compiler that names a file, a line, a column and a level.
pub open spec fn placed(
    path: Seq<char>,
    line: nat,
    column: nat,
    level: Level,
    rest: Seq<char>,
) -> Seq<char> {
    path + "("@ + text::dec(line) + ","@ + text::dec(column) + "): "@ + word_of(level) + rest
}

proof fn lemma_digits_trimmed(n: nat)
    ensures
        text::trim_view(text::dec(n)) == text::dec(n),
{
    texts::decimals_have_their_value(n);
    let s = text::dec(n);
    assert(texts::is_digit(s[0]) && texts::is_digit(s[s.len() - 1]));
    texts::trimming_takes_white_space_alone(Seq::empty(), s, Seq::empty());
    assert(Seq::<char>::empty() + s + Seq::<char>::empty() =~= s);
}

proof fn lemma_last_at(s: Seq<char>, p: Seq<char>, i: int, at: int)
    requires
        0 <= at <= i,
        text::stands_at(s, p, at),
        forall|k: int| at < k <= i ==> !#[trigger] text::stands_at(s, p, k),
    ensures
        text::last_from(s, p, i) == Some(at),
    decreases i - at,
{
    if at < i {
        lemma_last_at(s, p, i - 1, at);
    }
}

proof fn lemma_find_at(s: Seq<char>, c: char, i: int, at: int)
    requires
        0 <= i <= at < s.len(),
        s[at] == c,
        forall|k: int| i <= k < at ==> s[k] != c,
    ensures
        text::find(s, c, i) == at,
    decreases at - i,
{
    if i < at {
        lemma_find_at(s, c, i + 1, at);
    }
}

/// A diagnostic of the TypeScript compiler is shown with its file, its line, its level and its
/// message, and counts as what it says it is.
pub proof fn placed_diagnostics_are_read(
    path: Seq<char>,
    line: nat,
    column: nat,
    level: Level,
    rest: Seq<char>,
)
    requires
        path.len() > 0,
        !path.contains(')'),
        line <= u64::MAX,
        column <= u64::MAX,
    ensures
        diagnostics::tsc_line(placed(path, line, column, level, rest)) == Some(
            (path + ":"@ + text::dec(line) + ": "@ + word_of(level) + rest, level),
        ),
{
    reveal_strlit("(");
    reveal_strlit(",");
    reveal_strlit("): ");
    reveal_strlit("error");
    reveal_strlit("warning");
    let l = text::dec(line);
    let c = text::dec(column);
    let s = placed(path, line, column, level, rest);
    let tail = word_of(level) + rest;
    texts::decimals_have_their_value(line);
    texts::decimals_have_their_value(column);
    let open = path.len() as int;
    let comma = open + 1 + l.len();
    let close = comma + 1 + c.len();
    assert(s =~= path + "("@ + l + ","@ + c + "): "@ + tail);
    assert forall|k: int| 0 <= k < close implies s[k] != ')' by {
        if k < open {
            assert(s[k] == path[k]);
            assert(path.contains(path[k]));
        } else if k == open {
        } else if k < comma {
            assert(s[k] == l[k - open - 1]);
            assert(texts::is_digit(l[k - open - 1]));
        } else if k == comma {
        } else {
            assert(s[k] == c[k - comma - 1]);
            assert(texts::is_digit(c[k - comma - 1]));
        }
    }
    assert(s.subrange(close, close + 3) =~= "): "@);
    assert forall|k: int| 0 <= k < close implies !#[trigger] text::stands_at(s, "): "@, k) by {
        if text::stands_at(s, "): "@, k) {
            assert(s.subrange(k, k + 3)[0] == s[k]);
        }
    }
    commands::lemma_first_at(s, "): "@, 0, close);
    let front = s.take(close);
    assert(front.subrange(open, open + 1) =~= "("@);
    assert forall|k: int| open < k <= close - 1 implies !#[trigger] text::stands_at(
        front,
        "("@,
        k,
    ) by {
        if text::stands_at(front, "("@, k) {
            assert(front.subrange(k, k + 1)[0] == s[k]);
            if k < comma {
                assert(s[k] == l[k - open - 1]);
                assert(texts::is_digit(l[k - open - 1]));
            } else if k > comma {
                assert(s[k] == c[k - comma - 1]);
                assert(texts::is_digit(c[k - comma - 1]));
            }
        }
    }
    lemma_last_at(front, "("@, close - 1, open);
    assert(diagnostics::tsc_place(s) == Some((open, close)));
    let place = s.subrange(open + 1, close);
    assert(place =~= l + ","@ + c);
    assert forall|k: int| 0 <= k < l.len() implies place[k] != ',' by {
        assert(place[k] == l[k]);
        assert(texts::is_digit(l[k]));
    }
    lemma_find_at(place, ',', 0, l.len() as int);
    assert(place.skip(l.len() + 1 as int) =~= c);
    assert(place.take(l.len() as int) =~= l);
    lemma_digits_trimmed(line);
    lemma_digits_trimmed(column);
    texts::decimals_are_read_back(line, u64::MAX as nat);
    texts::decimals_are_read_back(column, u64::MAX as nat);
    assert(s.skip(close + 3) =~= tail);
    if level == Level::Error {
        assert(tail.subrange(0, 5) =~= "error"@);
    } else {
        assert(tail.subrange(0, 7) =~= "warning"@);
        assert(tail[0] == 'w');
        if text::starts(tail, "error"@) {
            assert(tail.subrange(0, 5)[0] == 'e');
        }
    }
    assert(s.take(open) =~= path);
    assert(path + ":"@ + l + ": "@ + tail =~= path + ":"@ + l + ": "@ + word_of(level) + rest);
}

/// A line of the TypeScript compiler without the end of a place, or without a level behind it, is no
/// diagnostic.
pub proof fn other_lines_are_no_diagnostics(line: Seq<char>)
    ensures
        diagnostics::tsc_line(line) matches Some((shown, level)) ==> text::has(line, "): "@)
            && text::has(line, "("@) && text::ends(line, shown.skip(shown.len() - 1)),
        !text::has(line, "): "@) ==> diagnostics::tsc_line(line) is None,
{
    reveal_strlit("): ");
    reveal_strlit("(");
    reveal_strlit("error");
    reveal_strlit("warning");
    commands::lemma_first_stands(line, "): "@, 0);
    if let Some((shown, level)) = diagnostics::tsc_line(line) {
        let (open, close) = diagnostics::tsc_place(line)->0;
        lemma_last_stands(line.take(close), "("@, close - 1);
        assert(line.take(close).subrange(open, open + 1) == "("@);
        assert(line.subrange(open, open + 1) =~= "("@);
        assert(text::stands_at(line, "("@, open));
        let rest = line.skip(close + 3);
        assert(rest.len() >= 5);
        assert(shown[shown.len() - 1] == rest[rest.len() - 1]);
        assert(shown.skip(shown.len() - 1) =~= line.subrange(line.len() - 1, line.len() as int));
    }
}

proof fn lemma_last_stands(s: Seq<char>, p: Seq<char>, i: int)
    ensures
        text::last_from(s, p, i) matches Some(k) ==> text::stands_at(s, p, k) && 0 <= k <= i,
    decreases i + 1,
{
    if i >= 0 && !text::stands_at(s, p, i) {
        lemma_last_stands(s, p, i - 1);
    }
}

proof fn lemma_all_found(
    output: Seq<char>,
    read: spec_fn(Seq<char>) -> Option<(Seq<char>, Level)>,
    i: int,
)
    requires
        0 <= i < text::lines_view(output).len(),
        read(text::lines_view(output)[i]) is Some,
    ensures
        ({
            let d = diagnostics::gathered_from(output, read);
            exists|k: int|
                0 <= k < d.lines.len() && shortened(
                    (read(text::lines_view(output)[i])->0).0,
                    #[trigger] d.lines[k],
                )
        }),
        diagnostics::gathered_from(output, read).lines.len() > 0,
        diagnostics::diagnostics_ok(diagnostics::gathered_from(output, read)),
{
    let found = diagnostics::found_in(text::lines_view(output), read);
    assert(found[i] == read(text::lines_view(output)[i]));
    findings_are_listed(found, found.len() as int, i);
    diagnostics::gathered_is_ok(found, found.len() as int);
    let d = diagnostics::gathered_from(output, read);
    let k = choose|k: int|
        0 <= k < diagnostics::gathered(found, found.len() as int).lines.len() && shortened(
            (found[i]->0).0,
            #[trigger] diagnostics::gathered(found, found.len() as int).lines[k],
        );
    assert(shortened((read(text::lines_view(output)[i])->0).0, d.lines[k]));
}

/// Each diagnostic that the TypeScript compiler writes to its output is listed.
pub proof fn compiler_diagnostics_are_listed(
    stdout: Seq<char>,
    stderr: Seq<char>,
    i: int,
    path: Seq<char>,
    line: nat,
    column: nat,
    level: Level,
    rest: Seq<char>,
)
    requires
        path.len() > 0,
        !path.contains(')'),
        line <= u64::MAX,
        column <= u64::MAX,
        0 <= i < text::lines_view(stdout).len(),
        text::trim_end_view(text::lines_view(stdout)[i]) == placed(path, line, column, level, rest),
    ensures
        ({
            let d = check::found_by(ProjectKind::TypeScript, stdout, stderr);
            let shown = path + ":"@ + text::dec(line) + ": "@ + word_of(level) + rest;
            &&& exists|k: int| 0 <= k < d.lines.len() && shortened(shown, #[trigger] d.lines[k])
            &&& d.errors + d.warnings == d.lines.len()
        }),
{
    placed_diagnostics_are_read(path, line, column, level, rest);
    let read = |l: Seq<char>| diagnostics::tsc_line(text::trim_end_view(l));
    lemma_all_found(stdout, read, i);
    let d = check::found_by(ProjectKind::TypeScript, stdout, stderr);
    assert(d == diagnostics::gathered_from(stdout, read));
    let shown = path + ":"@ + text::dec(line) + ": "@ + word_of(level) + rest;
    assert(read(text::lines_view(stdout)[i]) == Some((shown, level)));
    let k = choose|k: int|
        0 <= k < d.lines.len() && shortened(
            (read(text::lines_view(stdout)[i])->0).0,
            #[trigger] d.lines[k],
        );
    assert(shortened(shown, d.lines[k]));
}

/// Whether an entry of the Rust compiler's output is a message with that level and that text, which
/// does not merely sum up.
pub open spec fn is_message(value: JsonView, message: JsonView, word: Seq<char>, m: Seq<char>) -> bool {
    &&& json::text_member(value, "reason"@) == Some("compiler-message"@)
    &&& json::member(value, "message"@) == Some(message)
    &&& json::text_member(message, "level"@) == Some(word)
    &&& json::text_member(message, "message"@) == Some(m)
    &&& !text::starts(m, "aborting due to "@)
    &&& !text::ends(m, " warnings emitted"@)
    &&& !text::ends(m, " warning emitted"@)
    &&& !text::starts(m, "Some errors have detailed explanations"@)
    &&& !text::starts(m, "For more information about"@)
}

/// An error or a warning of the Rust compiler is a diagnostic that ends with its text; one whose
/// first primary span is known begins with the file and the line of that span.
pub proof fn messages_are_diagnostics(
    value: JsonView,
    message: JsonView,
    word: Seq<char>,
    m: Seq<char>,
    spans: Seq<JsonView>,
    p: int,
    file: Seq<char>,
    line: u64,
)
    requires
        is_message(value, message, word, m),
        json::member(message, "spans"@) == Some(JsonView::Array(spans)),
        0 <= p < spans.len(),
        json::member(spans[p], "is_primary"@) == Some(JsonView::Bool(true)),
        forall|k: int|
            0 <= k < p ==> json::member(#[trigger] spans[k], "is_primary"@) != Some(
                JsonView::Bool(true),
            ),
        json::text_member(spans[p], "file_name"@) == Some(file),
        json::member(spans[p], "line_start"@) == Some(JsonView::Int(line as int)),
    ensures
        text::starts(word, "error"@) ==> (diagnostics::cargo_entry(value) matches Some((shown, level))
            && level == Level::Error && text::starts(
            shown,
            file + ":"@ + text::dec(line as nat) + ": error"@,
        ) && text::ends(shown, ": "@ + m)),
        word == "warning"@ ==> (diagnostics::cargo_entry(value) matches Some((shown, level)) && level
            == Level::Warning && text::starts(
            shown,
            file + ":"@ + text::dec(line as nat) + ": warning"@,
        ) && text::ends(shown, ": "@ + m)),
        !text::starts(word, "error"@) && word != "warning"@ ==> diagnostics::cargo_entry(value)
            is None,
{
    reveal_strlit("error");
    reveal_strlit("warning");
    reveal_strlit(": ");
    reveal_strlit(": error");
    reveal_strlit(": warning");
    if word == "warning"@ && text::starts(word, "error"@) {
        assert(word.subrange(0, 5)[0] == 'w');
    }
    lemma_primary(spans, 0, p);
    assert(diagnostics::locating_span(message) == Some(spans[p]));
    if let Some((shown, level)) = diagnostics::cargo_entry(value) {
        let lead = file + ":"@ + text::dec(line as nat) + ": "@;
        let said = diagnostics::shown_level(level, diagnostics::message_code(message));
        assert(shown == lead + (said + ": "@ + m));
        let end = ": "@ + m;
        assert(shown.subrange(shown.len() - end.len(), shown.len() as int) =~= end);
        let front = file + ":"@ + text::dec(line as nat) + (if level == Level::Error {
            ": error"@
        } else {
            ": warning"@
        });
        assert(front =~= lead + word_of(level));
        assert(said.subrange(0, word_of(level).len() as int) =~= word_of(level));
        assert(shown.subrange(0, front.len() as int) =~= front);
    }
}

proof fn lemma_primary(spans: Seq<JsonView>, i: int, p: int)
    requires
        0 <= i <= p < spans.len(),
        diagnostics::is_primary(spans[p]),
        forall|k: int| i <= k < p ==> !diagnostics::is_primary(#[trigger] spans[k]),
    ensures
        diagnostics::primary_from(spans, i) == p,
    decreases p - i,
{
    if i < p {
        lemma_primary(spans, i + 1, p);
    }
}

/// A message without spans is shown by its level, its code and its text alone; one whose spans are
/// all secondary is placed by the first of them.
pub proof fn messages_without_a_primary_span(
    value: JsonView,
    message: JsonView,
    m: Seq<char>,
    spans: Seq<JsonView>,
    code: Seq<char>,
    holder: JsonView,
)
    requires
        is_message(value, message, "error"@, m),
        json::member(message, "code"@) == Some(holder),
        json::text_member(holder, "code"@) == Some(code),
        json::member(message, "spans"@) == Some(JsonView::Array(spans)),
        forall|k: int|
            0 <= k < spans.len() ==> json::member(#[trigger] spans[k], "is_primary"@) != Some(
                JsonView::Bool(true),
            ),
    ensures
        spans.len() == 0 ==> diagnostics::cargo_entry(value) == Some(
            ("error["@ + code + "]: "@ + m, Level::Error),
        ),
        spans.len() > 0 && json::text_member(spans[0], "file_name"@) is None && json::member(
            spans[0],
            "line_start"@,
        ) is None ==> diagnostics::cargo_entry(value) == Some(
            ("<unknown>:0: error["@ + code + "]: "@ + m, Level::Error),
        ),
{
    reveal_strlit("error");
    reveal_strlit("[");
    reveal_strlit("]");
    reveal_strlit(": ");
    reveal_strlit("error[");
    reveal_strlit("]: ");
    reveal_strlit("<unknown>");
    reveal_strlit(":");
    reveal_strlit("<unknown>:0: error[");
    assert("error"@.subrange(0, 5) =~= "error"@);
    lemma_no_primary(spans, 0);
    let said = "error"@ + "["@ + code + "]"@;
    let plain = "error["@ + code + "]: "@ + m;
    assert(said + ": "@ + m =~= plain);
    texts::decimals_have_their_value(0);
    let zero = text::dec(0);
    assert("<unknown>"@ + ":"@ + zero + ": "@ + (said + ": "@ + m) =~= "<unknown>:0: error["@ + code
        + "]: "@ + m);
}

proof fn lemma_no_primary(spans: Seq<JsonView>, i: int)
    requires
        0 <= i <= spans.len(),
        forall|k: int| i <= k < spans.len() ==> !diagnostics::is_primary(#[trigger] spans[k]),
    ensures
        diagnostics::primary_from(spans, i) == spans.len(),
    decreases spans.len() - i,
{
    if i < spans.len() {
        lemma_no_primary(spans, i + 1);
    }
}

/// What sums up a run, and what is no message of the compiler, is no diagnostic.
pub proof fn summaries_are_no_diagnostics(value: JsonView, message: JsonView, m: Seq<char>)
    ensures
        json::text_member(value, "reason"@) != Some("compiler-message"@)
            ==> diagnostics::cargo_entry(value) is None,
        json::member(value, "message"@) == Some(message) && json::text_member(message, "message"@)
            == Some(m) && (text::starts(m, "aborting due to "@) || text::ends(
            m,
            " warnings emitted"@,
        ) || text::ends(m, " warning emitted"@) || text::starts(
            m,
            "Some errors have detailed explanations"@,
        ) || text::starts(m, "For more information about"@)) ==> diagnostics::cargo_entry(value)
            is None,
{
}

/// Each diagnostic that the Rust compiler writes to its output, a line of JSON each, is listed.
pub proof fn cargo_diagnostics_are_listed(
    stdout: Seq<char>,
    stderr: Seq<char>,
    i: int,
    value: JsonView,
)
    requires
        0 <= i < text::lines_view(stdout).len(),
        codec::parsed(text::lines_view(stdout)[i]) == Some(value),
        diagnostics::cargo_entry(value) is Some,
    ensures
        ({
            let d = check::found_by(ProjectKind::Rust, stdout, stderr);
            &&& exists|k: int|
                0 <= k < d.lines.len() && shortened(
                    (diagnostics::cargo_entry(value)->0).0,
                    #[trigger] d.lines[k],
                )
            &&& d.errors + d.warnings == d.lines.len()
        }),
{
    let read = |l: Seq<char>| diagnostics::cargo_line(l);
    lemma_all_found(stdout, read, i);
}

/// A check runs in the workspace unless a directory is asked for, and then there; a path that is
/// refused or is no directory fails the call, with the reason or the path.
pub proof fn checks_run_where_they_are_asked_to(
    root: Seq<char>,
    path: Seq<char>,
    dir: String,
    reason: String,
)
    ensures
        check::scope_view(root, None) == Ok::<Seq<char>, ToolResultView>(root),
        check::scope_view(root, Some((path, ScopeFacts::Directory(dir)))) == Ok::<
            Seq<char>,
            ToolResultView,
        >(dir@),
        check::scope_view(root, Some((path, ScopeFacts::Refused(reason)))) matches Err(a)
            && !a.success && text::ends(a.output, reason@),
        check::scope_view(root, Some((path, ScopeFacts::Other))) matches Err(a) && !a.success
            && text::has(a.output, path),
{
    let lead = "check error: "@;
    assert((lead + reason@).subrange(lead.len() as int, (lead + reason@).len() as int) =~= reason@);
    values::texts_stand_between_their_surroundings(
        "check error: '"@,
        path,
        "' is not a directory (pass a directory to scope the check, or omit 'path' for the workspace root)"@,
    );
}

/// Each kind of project has its own program, which is started in the directory of the check: as it
/// was found where nothing confines it, and through the sandbox, by its path and with its arguments,
/// where a sandbox does.
pub proof fn checkers_are_started_as_found(
    dir: Seq<char>,
    path: String,
    sandbox: Confinement,
)
    ensures
        ({
            let go = check::plan_view(
                sandbox,
                dir,
                Some(ProjectKind::Go),
                Checker::At(path),
            );
            let words = seq![path@, "vet"@, "./..."@];
            &&& sandbox == Confinement::Open ==> (go matches Ok(
                check::CheckPlanView::Direct { program, args, cwd },
            ) && program == path@ && args == seq!["vet"@, "./..."@] && cwd == dir)
            &&& sandbox == Confinement::Shell && check::quoted_line(words) is Some ==> (go matches Ok(
                check::CheckPlanView::Wrapped { command, cwd },
            ) && Some(command) == check::quoted_line(words) && cwd == dir)
            &&& sandbox == Confinement::Foreign ==> (go matches Err(a) && a.success)
        }),
        ({
            let rust = check::plan_view(
                sandbox,
                dir,
                Some(ProjectKind::Rust),
                Checker::At(path),
            );
            sandbox == Confinement::Open ==> (rust matches Ok(
                check::CheckPlanView::Direct { program, args, cwd },
            ) && program == path@ && args == seq!["check"@, "--message-format=json"@] && cwd == dir)
        }),
        ({
            let ts = check::plan_view(
                sandbox,
                dir,
                Some(ProjectKind::TypeScript),
                Checker::At(path),
            );
            sandbox == Confinement::Open ==> (ts matches Ok(
                check::CheckPlanView::Direct { program, args, cwd },
            ) && program == path@ && args == seq!["--noEmit"@] && cwd == dir)
        }),
{
    let words = seq![path@, "vet"@, "./..."@];
    assert(seq![path@] + check::args_of(ProjectKind::Go) =~= words);
}

} // verus!
