//! What static checkers report: their output as one line per diagnostic, and a short report.

use vstd::prelude::*;

use crate::bytes;
use crate::bytes::truncate_utf8;
use crate::codec;
use crate::codec::parse_json;
use crate::json;
use crate::json::{Json, JsonView};
use crate::text;
use crate::text::{cat, cat3, cat4, cat5, chars_of, contains, dec_string, ends_with, find_char, find_sub, lines, list_has, own, parse_number, rfind, same, signed_string, starts_with, string_of, trim, trim_end};

verus! {

/// How many diagnostics a report lists.
pub const MAX_DIAGNOSTICS: usize = 50;

/// How many bytes of a diagnostic a report shows.
pub const MAX_LINE_BYTES: usize = 500;

/// How serious a diagnostic is.
#[derive(Debug, Clone, Copy, PartialEq, Eq, Structural)]
pub enum Level {
    Error,
    Warning,
}

/// Diagnostics, each once, in the order in which they were first seen.
#[derive(Debug)]
pub struct ParsedDiagnostics {
    /// One line per diagnostic.
    pub lines: Vec<String>,
    /// How many of them are errors.
    pub errors: usize,
    /// How many of them are warnings.
    pub warnings: usize,
}

/// What [`ParsedDiagnostics`] stand for.
#[verifier::ext_equal]
pub struct DiagnosticsView {
    pub lines: Seq<Seq<char>>,
    pub errors: int,
    pub warnings: int,
}

impl View for ParsedDiagnostics {
    type V = DiagnosticsView;

    open spec fn view(&self) -> DiagnosticsView {
        DiagnosticsView {
            lines: text::views(self.lines@),
            errors: self.errors as int,
            warnings: self.warnings as int,
        }
    }
}

/// No diagnostics.
pub open spec fn none_found() -> DiagnosticsView {
    DiagnosticsView { lines: Seq::empty(), errors: 0, warnings: 0 }
}

/// Every diagnostic is listed once and counted once.
pub open spec fn diagnostics_ok(d: DiagnosticsView) -> bool {
    &&& d.lines.no_duplicates()
    &&& d.errors >= 0
    &&& d.warnings >= 0
    &&& d.errors + d.warnings == d.lines.len()
}

impl Default for ParsedDiagnostics {
    fn default() -> (r: Self)
        ensures
            r@ == none_found(),
    {
        let r = ParsedDiagnostics { lines: Vec::new(), errors: 0, warnings: 0 };
        proof {
            text::lemma_views_empty(r.lines@);
        }
        r
    }
}

/// A text as one line.
pub open spec fn flat(s: Seq<char>) -> Seq<char> {
    Seq::new(
        s.len(),
        |i: int|
            if s[i] == '\n' {
                ' '
            } else {
                s[i]
            },
    )
}

/// The line that is listed for a diagnostic.
pub open spec fn listed(line: Seq<char>) -> Seq<char> {
    bytes::truncated_view(flat(line), MAX_LINE_BYTES as nat, "…"@)
}

/// The diagnostics with one more, where it is not listed yet.
pub open spec fn pushed(d: DiagnosticsView, line: Seq<char>, level: Level) -> DiagnosticsView {
    if d.lines.contains(listed(line)) {
        d
    } else {
        DiagnosticsView {
            lines: d.lines.push(listed(line)),
            errors: d.errors + (if level == Level::Error {
                1int
            } else {
                0
            }),
            warnings: d.warnings + (if level == Level::Warning {
                1int
            } else {
                0
            }),
        }
    }
}

/// Adding a diagnostic keeps every diagnostic listed once and counted once.
pub proof fn pushed_is_ok(d: DiagnosticsView, line: Seq<char>, level: Level)
    requires
        diagnostics_ok(d),
    ensures
        diagnostics_ok(pushed(d, line, level)),
{
}

/// Adding a diagnostic twice is adding it once.
pub proof fn repeated_diagnostics_count_once(
    d: DiagnosticsView,
    line: Seq<char>,
    level: Level,
    again: Level,
)
    ensures
        pushed(pushed(d, line, level), line, again) == pushed(d, line, level),
{
    let l = d.lines;
    assert(l.push(listed(line))[l.len() as int] == listed(line));
}

/// A listed diagnostic is one line of bounded length.
pub proof fn listed_lines_are_short(line: Seq<char>)
    ensures
        !listed(line).contains('\n'),
        bytes::byte_len(listed(line)) <= MAX_LINE_BYTES + bytes::byte_len("…"@),
{
    bytes::truncation_is_bounded(flat(line), MAX_LINE_BYTES as nat, "…"@);
    bytes::head_is_longest(flat(line), MAX_LINE_BYTES as nat);
    reveal_strlit("…");
    assert(!flat(line).contains('\n'));
    let h = bytes::head(flat(line), MAX_LINE_BYTES as nat);
    assert forall|i: int| 0 <= i < listed(line).len() implies listed(line)[i] != '\n' by {
        if listed(line) != flat(line) && i < h.len() {
            assert(listed(line)[i] == flat(line)[i]);
        }
    }
}

fn flat_line(s: &str) -> (r: String)
    ensures
        r@ == flat(s@),
{
    let v = chars_of(s);
    let mut out: Vec<char> = Vec::new();
    let mut i: usize = 0;
    while i < v.len()
        invariant
            i <= v.len(),
            v@ == s@,
            out@ == flat(s@).take(i as int),
        decreases v.len() - i,
    {
        if v[i] == '\n' {
            out.push(' ');
        } else {
            out.push(v[i]);
        }
        i += 1;
        assert(out@ =~= flat(s@).take(i as int));
    }
    let n: usize = out.len();
    assert(out@.subrange(0, n as int) =~= flat(s@));
    string_of(&out, 0, n)
}

impl ParsedDiagnostics {
    /// Adds a diagnostic, where it is not listed yet. It becomes one line of bounded length.
    pub fn push(&mut self, line: &str, level: Level)
        requires
            diagnostics_ok(old(self)@),
        ensures
            final(self)@ == pushed(old(self)@, line@, level),
            diagnostics_ok(final(self)@),
    {
        broadcast use text::lemma_views_push;

        let l = truncate_utf8(&flat_line(line), MAX_LINE_BYTES, "…");
        proof {
            pushed_is_ok(self@, line@, level);
        }
        if list_has(&self.lines, &l) {
            return ;
        }
        let n: usize = self.lines.len();
        self.lines.push(l);
        match level {
            Level::Error => {
                assert(self.errors <= n && n < self.lines.len());
                self.errors = self.errors + 1;
            },
            Level::Warning => {
                assert(self.warnings <= n && n < self.lines.len());
                self.warnings = self.warnings + 1;
            },
        }
    }
}

/// What the first `n` of the found diagnostics come to.
pub open spec fn gathered(found: Seq<Option<(Seq<char>, Level)>>, n: int) -> DiagnosticsView
    decreases n,
{
    if n <= 0 {
        none_found()
    } else {
        let before = gathered(found, n - 1);
        match found[n - 1] {
            Some((line, level)) => pushed(before, line, level),
            None => before,
        }
    }
}

/// However many diagnostics are gathered, each is listed once and counted once.
pub proof fn gathered_is_ok(found: Seq<Option<(Seq<char>, Level)>>, n: int)
    ensures
        diagnostics_ok(gathered(found, n)),
    decreases n,
{
    if n > 0 {
        gathered_is_ok(found, n - 1);
        if let Some((line, level)) = found[n - 1] {
            pushed_is_ok(gathered(found, n - 1), line, level);
        }
    }
}

/// What is found in each line of a checker's output.
pub open spec fn found_in(
    ls: Seq<Seq<char>>,
    read: spec_fn(Seq<char>) -> Option<(Seq<char>, Level)>,
) -> Seq<Option<(Seq<char>, Level)>> {
    Seq::new(ls.len(), |i: int| read(ls[i]))
}

/// What a checker's output comes to, where `read` finds a diagnostic in a line.
pub open spec fn gathered_from(
    output: Seq<char>,
    read: spec_fn(Seq<char>) -> Option<(Seq<char>, Level)>,
) -> DiagnosticsView {
    let found = found_in(text::lines_view(output), read);
    gathered(found, found.len() as int)
}

/// Whether a message of the compiler only sums up a run.
pub open spec fn sums_up(m: Seq<char>) -> bool {
    ||| text::starts(m, "aborting due to "@)
    ||| text::ends(m, " warnings emitted"@)
    ||| text::ends(m, " warning emitted"@)
    ||| text::starts(m, "Some errors have detailed explanations"@)
    ||| text::starts(m, "For more information about"@)
}

/// Whether a message of the compiler only sums up a run, and is no diagnostic of its own.
pub fn is_cargo_summary_message(m: &str) -> (r: bool)
    ensures
        r == sums_up(m@),
{
    starts_with(m, "aborting due to ") || ends_with(m, " warnings emitted") || ends_with(
        m,
        " warning emitted",
    ) || starts_with(m, "Some errors have detailed explanations") || starts_with(
        m,
        "For more information about",
    )
}

/// The level that a compiler's level word stands for.
pub open spec fn cargo_level(word: Seq<char>) -> Option<Level> {
    if text::starts(word, "error"@) {
        Some(Level::Error)
    } else if word == "warning"@ {
        Some(Level::Warning)
    } else {
        None
    }
}

/// The word that a level is shown as.
pub open spec fn level_word(level: Level) -> Seq<char> {
    match level {
        Level::Error => "error"@,
        Level::Warning => "warning"@,
    }
}

/// The code of a compiler's message.
pub open spec fn message_code(message: JsonView) -> Option<Seq<char>> {
    match json::member(message, "code"@) {
        Some(c) => json::text_member(c, "code"@),
        None => None,
    }
}

/// How the level of a compiler's message is shown.
pub open spec fn shown_level(level: Level, code: Option<Seq<char>>) -> Seq<char> {
    match code {
        Some(c) => level_word(level) + "["@ + c + "]"@,
        None => level_word(level),
    }
}

/// Whether a span is the primary one.
pub open spec fn is_primary(span: JsonView) -> bool {
    json::member(span, "is_primary"@) == Some(JsonView::Bool(true))
}

/// The place of the first primary span at or after `i`, the length where there is none.
pub open spec fn primary_from(spans: Seq<JsonView>, i: int) -> int
    decreases spans.len() - i,
{
    if i >= spans.len() {
        spans.len() as int
    } else if is_primary(spans[i]) {
        i
    } else {
        primary_from(spans, i + 1)
    }
}

/// The span that locates a message: the first primary one, else the first.
pub open spec fn locating_span(message: JsonView) -> Option<JsonView> {
    match json::member(message, "spans"@) {
        Some(JsonView::Array(spans)) => if spans.len() == 0 {
            None
        } else if primary_from(spans, 0) < spans.len() {
            Some(spans[primary_from(spans, 0)])
        } else {
            Some(spans[0])
        },
        _ => None,
    }
}

/// The file of a span.
pub open spec fn span_file(span: JsonView) -> Seq<char> {
    match json::text_member(span, "file_name"@) {
        Some(f) => f,
        None => "<unknown>"@,
    }
}

/// The line of a span.
pub open spec fn span_line(span: JsonView) -> nat {
    match json::member(span, "line_start"@) {
        Some(v) => match json::unsigned_of(v) {
            Some(n) => n as nat,
            None => 0,
        },
        None => 0,
    }
}

/// How a compiler's message is shown.
pub open spec fn shown_message(message: JsonView, level: Level, m: Seq<char>) -> Seq<char> {
    let lead = shown_level(level, message_code(message));
    match locating_span(message) {
        Some(span) => span_file(span) + ":"@ + text::dec(span_line(span)) + ": "@ + (lead + ": "@
            + m),
        None => lead + ": "@ + m,
    }
}

/// The diagnostic that an entry of the compiler's output holds.
pub open spec fn cargo_entry(value: JsonView) -> Option<(Seq<char>, Level)> {
    if json::text_member(value, "reason"@) != Some("compiler-message"@) {
        None
    } else {
        match json::member(value, "message"@) {
            None => None,
            Some(message) => match json::text_member(message, "level"@) {
                None => None,
                Some(word) => match cargo_level(word) {
                    None => None,
                    Some(level) => match json::text_member(message, "message"@) {
                        None => None,
                        Some(m) => if sums_up(m) {
                            None
                        } else {
                            Some((shown_message(message, level, m), level))
                        },
                    },
                },
            },
        }
    }
}

/// A rendered diagnostic with its level.
pub open spec fn finding(r: Option<(String, Level)>) -> Option<(Seq<char>, Level)> {
    match r {
        Some((s, l)) => Some((s@, l)),
        None => None,
    }
}

fn find_span(spans: &Vec<Json>) -> (r: usize)
    ensures
        r == primary_from(text::views(spans@), 0),
        r <= spans.len(),
{
    let mut i: usize = 0;
    while i < spans.len()
        invariant
            i <= spans.len(),
            primary_from(text::views(spans@), 0) == primary_from(text::views(spans@), i as int),
        decreases spans.len() - i,
    {
        assert(text::views(spans@)[i as int] == spans@[i as int]@);
        let primary = match spans[i].get("is_primary") {
            Some(Json::Bool(b)) => *b,
            _ => false,
        };
        if primary {
            return i;
        }
        i += 1;
    }
    i
}

fn locate(message: &Json) -> (r: Option<&Json>)
    ensures
        json::opt_json(r) == locating_span(message@),
{
    broadcast use json::lemma_array_view;

    match message.get("spans") {
        Some(Json::Array(spans)) => {
            assert(text::views(spans@).len() == spans@.len());
            if spans.len() == 0 {
                None
            } else {
                let p: usize = find_span(spans);
                if p < spans.len() {
                    assert(text::views(spans@)[p as int] == spans@[p as int]@);
                    Some(&spans[p])
                } else {
                    assert(text::views(spans@)[0] == spans@[0]@);
                    Some(&spans[0])
                }
            }
        },
        _ => None,
    }
}

fn show_message(message: &Json, level: Level, m: &str) -> (r: String)
    ensures
        r@ == shown_message(message@, level, m@),
{
    let word = match level {
        Level::Error => "error",
        Level::Warning => "warning",
    };
    let code: Option<&String> = match message.get("code") {
        Some(c) => c.get_text("code"),
        None => None,
    };
    let lead = match code {
        Some(c) => cat4(word, "[", c, "]"),
        None => own(word),
    };
    assert(lead@ == shown_level(level, message_code(message@)));
    let said = cat3(&lead, ": ", m);
    match locate(message) {
        Some(span) => {
            let file: &str = match span.get_text("file_name") {
                Some(f) => f.as_str(),
                None => "<unknown>",
            };
            let n: u64 = match span.get("line_start") {
                Some(v) => match v.as_unsigned() {
                    Some(n) => n,
                    None => 0,
                },
                None => 0,
            };
            cat5(file, ":", &dec_string(n as u128), ": ", &said)
        },
        None => said,
    }
}

/// The diagnostic that an entry of the compiler's output holds: a message that is an error or
/// a warning, and does not only sum up the run.
pub fn read_cargo_entry(value: &Json) -> (r: Option<(String, Level)>)
    ensures
        finding(r) == cargo_entry(value@),
{
    match value.get_text("reason") {
        Some(reason) => {
            if !same(reason, "compiler-message") {
                return None;
            }
        },
        None => {
            return None;
        },
    }
    let message = match value.get("message") {
        Some(message) => message,
        None => {
            return None;
        },
    };
    let word = match message.get_text("level") {
        Some(word) => word,
        None => {
            return None;
        },
    };
    let level = if starts_with(word, "error") {
        Level::Error
    } else if same(word, "warning") {
        Level::Warning
    } else {
        return None;
    };
    match message.get_text("message") {
        Some(m) => {
            if is_cargo_summary_message(m) {
                None
            } else {
                Some((show_message(message, level, m), level))
            }
        },
        None => None,
    }
}

/// The diagnostic that a line of the compiler's output holds.
pub open spec fn cargo_line(line: Seq<char>) -> Option<(Seq<char>, Level)> {
    match codec::parsed(line) {
        Some(value) => cargo_entry(value),
        None => None,
    }
}

fn read_cargo_line(line: &str) -> (r: Option<(String, Level)>)
    ensures
        finding(r) == cargo_line(line@),
{
    match parse_json(line) {
        Some(value) => read_cargo_entry(&value),
        None => None,
    }
}

/// The diagnostics in the output of `cargo check --message-format=json`.
pub fn parse_cargo_json(output: &str) -> (r: ParsedDiagnostics)
    ensures
        r@ == gathered_from(output@, |l: Seq<char>| cargo_line(l)),
        diagnostics_ok(r@),
{
    let ls = lines(output);
    let ghost found = found_in(text::lines_view(output@), |l: Seq<char>| cargo_line(l));
    let mut out = ParsedDiagnostics::default();
    let mut i: usize = 0;
    while i < ls.len()
        invariant
            i <= ls.len(),
            text::views(ls@) == text::lines_view(output@),
            found == found_in(text::lines_view(output@), |l: Seq<char>| cargo_line(l)),
            out@ == gathered(found, i as int),
            diagnostics_ok(out@),
        decreases ls.len() - i,
    {
        assert(text::views(ls@)[i as int] == ls@[i as int]@);
        assert(found[i as int] == cargo_line(ls@[i as int]@));
        if let Some((line, level)) = read_cargo_line(&ls[i]) {
            out.push(&line, level);
        }
        i += 1;
    }
    out
}

/// Where a diagnostic of the TypeScript compiler names its place: the place of the first
/// `"): "`, and of the last opening bracket before it.
pub open spec fn tsc_place(line: Seq<char>) -> Option<(int, int)> {
    match text::first_position(line, "): "@) {
        None => None,
        Some(close) => match text::last_position(line.take(close), "("@) {
            None => None,
            Some(open) => Some((open, close)),
        },
    }
}

/// The line number that a place in round brackets names, where the place is a line and a
/// column.
pub open spec fn tsc_line_number(place: Seq<char>) -> Option<nat> {
    let comma = text::find(place, ',', 0);
    if comma >= place.len() {
        None
    } else if text::number(text::trim_view(place.skip(comma + 1)), u64::MAX as nat) is None {
        None
    } else {
        text::number(text::trim_view(place.take(comma)), u64::MAX as nat)
    }
}

/// The level that a diagnostic of the TypeScript compiler begins with.
pub open spec fn tsc_level(rest: Seq<char>) -> Option<Level> {
    if text::starts(rest, "error"@) {
        Some(Level::Error)
    } else if text::starts(rest, "warning"@) {
        Some(Level::Warning)
    } else {
        None
    }
}

/// The diagnostic that a line of the TypeScript compiler's output holds:
/// `path(line,col): error ..` becomes `path:line: error ..`.
pub open spec fn tsc_line(line: Seq<char>) -> Option<(Seq<char>, Level)> {
    match tsc_place(line) {
        None => None,
        Some((open, close)) => {
            let rest = line.skip(close + 3);
            match (tsc_line_number(line.subrange(open + 1, close)), tsc_level(rest)) {
                (Some(n), Some(level)) => if open == 0 {
                    None
                } else {
                    Some((line.take(open) + ":"@ + text::dec(n) + ": "@ + rest, level))
                },
                _ => None,
            }
        },
    }
}

fn tsc_number(place: &str) -> (r: Option<u64>)
    ensures
        (match r {
            Some(n) => Some(n as nat),
            None => None,
        }) == tsc_line_number(place@),
{
    let v = chars_of(place);
    let comma: usize = find_char(&v, ',', 0);
    let n: usize = v.len();
    if comma >= n {
        return None;
    }
    let column = string_of(&v, comma + 1, n);
    let line = string_of(&v, 0, comma);
    assert(column@ =~= place@.skip(comma + 1));
    assert(line@ =~= place@.take(comma as int));
    match parse_number(&trim(&column), u64::MAX) {
        Some(_) => parse_number(&trim(&line), u64::MAX),
        None => None,
    }
}

/// The diagnostic that a line of the TypeScript compiler's output holds, where it holds one.
pub fn parse_tsc_line(line: &str) -> (r: Option<(String, Level)>)
    ensures
        finding(r) == tsc_line(line@),
{
    let v = chars_of(line);
    let n: usize = v.len();
    proof {
        reveal_strlit("): ");
        reveal_strlit("(");
    }
    let close: usize = match find_sub(&v, &chars_of("): ")) {
        Some(close) => close,
        None => {
            return None;
        },
    };
    let before = string_of(&v, 0, close);
    assert(before@ =~= line@.take(close as int));
    let open: usize = match rfind(&chars_of(&before), &chars_of("(")) {
        Some(open) => open,
        None => {
            return None;
        },
    };
    let place = string_of(&v, open + 1, close);
    let rest = string_of(&v, close + 3, n);
    assert(rest@ =~= line@.skip(close + 3));
    let number: u64 = match tsc_number(&place) {
        Some(number) => number,
        None => {
            return None;
        },
    };
    let level = if starts_with(&rest, "error") {
        Level::Error
    } else if starts_with(&rest, "warning") {
        Level::Warning
    } else {
        return None;
    };
    if open == 0 {
        return None;
    }
    let file = string_of(&v, 0, open);
    assert(file@ =~= line@.take(open as int));
    Some((cat5(&file, ":", &dec_string(number as u128), ": ", &rest), level))
}

/// The diagnostics in the output of `tsc --noEmit`.
pub fn parse_tsc_output(output: &str) -> (r: ParsedDiagnostics)
    ensures
        r@ == gathered_from(output@, |l: Seq<char>| tsc_line(text::trim_end_view(l))),
        diagnostics_ok(r@),
{
    let ls = lines(output);
    let ghost read = |l: Seq<char>| tsc_line(text::trim_end_view(l));
    let ghost found = found_in(text::lines_view(output@), read);
    let mut out = ParsedDiagnostics::default();
    let mut i: usize = 0;
    while i < ls.len()
        invariant
            i <= ls.len(),
            text::views(ls@) == text::lines_view(output@),
            read == |l: Seq<char>| tsc_line(text::trim_end_view(l)),
            found == found_in(text::lines_view(output@), read),
            out@ == gathered(found, i as int),
            diagnostics_ok(out@),
        decreases ls.len() - i,
    {
        assert(text::views(ls@)[i as int] == ls@[i as int]@);
        assert(found[i as int] == tsc_line(text::trim_end_view(ls@[i as int]@)));
        if let Some((line, level)) = parse_tsc_line(&trim_end(&ls[i])) {
            out.push(&line, level);
        }
        i += 1;
    }
    out
}

/// Whether `s[i..j]` is a colon, digits and a colon, with a digit at least.
pub open spec fn number_segment(s: Seq<char>, i: int, j: int) -> bool {
    &&& 0 <= i
    &&& i + 1 < j < s.len()
    &&& s[i] == ':'
    &&& s[j] == ':'
    &&& forall|k: int| i < k < j ==> text::digit_value(#[trigger] s[k]) is Some
}

/// Whether a line holds a colon, digits and a colon somewhere.
pub open spec fn has_number_segment(s: Seq<char>) -> bool {
    exists|i: int, j: int| number_segment(s, i, j)
}

/// Whether a line holds a `:<digits>:` segment somewhere.
pub fn has_line_number_segment(line: &str) -> (r: bool)
    ensures
        r == has_number_segment(line@),
{
    let v = chars_of(line);
    let n: usize = v.len();
    let mut i: usize = 0;
    while i < n
        invariant
            i <= n,
            n == v.len(),
            v@ == line@,
            forall|a: int, j: int| a < i ==> !number_segment(line@, a, j),
        decreases n - i,
    {
        if v[i] == ':' {
            let mut j: usize = i + 1;
            while j < n && '0' <= v[j] && v[j] <= '9'
                invariant
                    i < j <= n,
                    n == v.len(),
                    v@ == line@,
                    forall|k: int| i < k < j ==> text::digit_value(#[trigger] line@[k]) is Some,
                decreases n - j,
            {
                j += 1;
            }
            if j > i + 1 && j < n && v[j] == ':' {
                assert(number_segment(line@, i as int, j as int));
                return true;
            }
            assert forall|b: int| !number_segment(line@, i as int, b) by {
                if number_segment(line@, i as int, b) {
                    if b < j {
                        assert(text::digit_value(line@[b]) is Some);
                    } else if b > j {
                        assert(text::digit_value(line@[j as int]) is Some);
                    }
                }
            }
        }
        i += 1;
    }
    false
}

/// The finding that a line of `go vet`'s output holds; each counts as an error.
pub open spec fn vet_line(line: Seq<char>) -> Option<(Seq<char>, Level)> {
    if line.len() == 0 || text::starts(line, "#"@) || !has_number_segment(line) {
        None
    } else {
        Some((line, Level::Error))
    }
}

/// The findings in the output of `go vet`.
pub fn parse_go_vet_output(output: &str) -> (r: ParsedDiagnostics)
    ensures
        r@ == gathered_from(output@, |l: Seq<char>| vet_line(text::trim_end_view(l))),
        diagnostics_ok(r@),
{
    let ls = lines(output);
    let ghost read = |l: Seq<char>| vet_line(text::trim_end_view(l));
    let ghost found = found_in(text::lines_view(output@), read);
    let mut out = ParsedDiagnostics::default();
    let mut i: usize = 0;
    while i < ls.len()
        invariant
            i <= ls.len(),
            text::views(ls@) == text::lines_view(output@),
            read == |l: Seq<char>| vet_line(text::trim_end_view(l)),
            found == found_in(text::lines_view(output@), read),
            out@ == gathered(found, i as int),
            diagnostics_ok(out@),
        decreases ls.len() - i,
    {
        assert(text::views(ls@)[i as int] == ls@[i as int]@);
        let line = trim_end(&ls[i]);
        assert(found[i as int] == vet_line(line@));
        if !line.as_str().is_empty() && !starts_with(&line, "#") && has_line_number_segment(&line) {
            out.push(&line, Level::Error);
        }
        i += 1;
    }
    out
}

/// A count of things.
pub open spec fn counted(n: nat, noun: Seq<char>) -> Seq<char> {
    if n == 1 {
        "1 "@ + noun
    } else {
        text::dec(n) + " "@ + noun + "s"@
    }
}

/// A count of things, as text.
pub fn plural(n: usize, noun: &str) -> (r: String)
    ensures
        r@ == counted(n as nat, noun@),
{
    if n == 1 {
        cat("1 ", noun)
    } else {
        cat4(&dec_string(n as u128), " ", noun, "s")
    }
}

/// The layers in which a checker can fail without a diagnostic.
#[derive(Debug, Clone, Copy, PartialEq, Eq, Structural)]
pub enum FailureLayer {
    /// An access was denied.
    Access,
    /// There is no project here.
    Manifest,
    /// The checker is missing.
    Toolchain,
    /// The registry cannot be reached.
    Network,
}

/// The layer that a checker's output names, where it names one. A denied access is looked for
/// first, since it tends to bring about the others.
pub open spec fn failure_layer(raw: Seq<char>) -> Option<FailureLayer> {
    if text::has(raw, "Operation not permitted"@) || text::has(raw, "Permission denied"@)
        || text::has(raw, "Read-only file system"@) {
        Some(FailureLayer::Access)
    } else if text::has(raw, "could not find `Cargo.toml`"@) || text::has(
        raw,
        "no `tsconfig.json`"@,
    ) || text::has(raw, "go.mod file not found"@) {
        Some(FailureLayer::Manifest)
    } else if text::has(raw, "command not found"@) || text::has(raw, "No such file or directory"@)
        || text::has(raw, "not recognized as an internal or external command"@) {
        Some(FailureLayer::Toolchain)
    } else if text::has(raw, "failed to download"@) || text::has(raw, "Connection refused"@)
        || text::has(raw, "could not resolve host"@) || text::has(raw, "network failure"@)
        || text::has(raw, "failed to fetch"@) {
        Some(FailureLayer::Network)
    } else {
        None
    }
}

/// What is said of a layer.
pub open spec fn layer_text(layer: FailureLayer) -> Seq<char> {
    match layer {
        FailureLayer::Access =>
            "the environment denied a file access (on a sandboxed run this is usually the sandbox — on macOS, toolchain caches like ~/.rustup and ~/.cargo need `sandbox.allow_toolchains`), not a defect in the project's code"@,
        FailureLayer::Manifest =>
            "the checker found no project manifest here — likely the wrong directory"@,
        FailureLayer::Toolchain =>
            "the checker binary or toolchain itself is missing from this environment"@,
        FailureLayer::Network =>
            "the registry/network is unreachable, not a defect in the project's code"@,
    }
}

/// The layer in which a checker failed, where its output names one.
pub fn classify_failure(raw: &str) -> (r: Option<FailureLayer>)
    ensures
        r == failure_layer(raw@),
{
    if contains(raw, "Operation not permitted") || contains(raw, "Permission denied") || contains(
        raw,
        "Read-only file system",
    ) {
        Some(FailureLayer::Access)
    } else if contains(raw, "could not find `Cargo.toml`") || contains(raw, "no `tsconfig.json`")
        || contains(raw, "go.mod file not found") {
        Some(FailureLayer::Manifest)
    } else if contains(raw, "command not found") || contains(raw, "No such file or directory")
        || contains(raw, "not recognized as an internal or external command") {
        Some(FailureLayer::Toolchain)
    } else if contains(raw, "failed to download") || contains(raw, "Connection refused")
        || contains(raw, "could not resolve host") || contains(raw, "network failure")
        || contains(raw, "failed to fetch") {
        Some(FailureLayer::Network)
    } else {
        None
    }
}

fn say_layer(layer: FailureLayer) -> (r: &'static str)
    ensures
        r@ == layer_text(layer),
{
    match layer {
        FailureLayer::Access =>
            "the environment denied a file access (on a sandboxed run this is usually the sandbox — on macOS, toolchain caches like ~/.rustup and ~/.cargo need `sandbox.allow_toolchains`), not a defect in the project's code",
        FailureLayer::Manifest =>
            "the checker found no project manifest here — likely the wrong directory",
        FailureLayer::Toolchain =>
            "the checker binary or toolchain itself is missing from this environment",
        FailureLayer::Network =>
            "the registry/network is unreachable, not a defect in the project's code",
    }
}

/// An exit code as text.
pub open spec fn code_text(code: Option<i32>) -> Seq<char> {
    match code {
        Some(c) => text::signed(c as int),
        None => "unknown"@,
    }
}

/// The first `n` lines, each with its line feed.
pub open spec fn fed(ls: Seq<Seq<char>>, n: int) -> Seq<char>
    decreases n,
{
    if n <= 0 {
        Seq::empty()
    } else {
        fed(ls, n - 1) + ls[n - 1] + "\n"@
    }
}

/// How many of `n` diagnostics a report lists.
pub open spec fn shown_count(n: int) -> int {
    if n <= MAX_DIAGNOSTICS {
        n
    } else {
        MAX_DIAGNOSTICS as int
    }
}

/// What is said of the diagnostics that a report does not list.
pub open spec fn remainder_text(n: int) -> Seq<char> {
    if n > MAX_DIAGNOSTICS {
        "... and "@ + text::dec((n - MAX_DIAGNOSTICS) as nat) + " more diagnostics\n"@
    } else {
        Seq::empty()
    }
}

/// The report on a checker's run.
pub open spec fn report_view(
    label: Seq<char>,
    d: DiagnosticsView,
    code: Option<i32>,
    raw_tail: Option<Seq<char>>,
) -> Seq<char> {
    if d.lines.len() > 0 {
        label + ": "@ + counted(d.errors as nat, "error"@) + ", "@ + counted(
            d.warnings as nat,
            "warning"@,
        ) + "\n\n"@ + fed(d.lines, shown_count(d.lines.len() as int)) + remainder_text(
            d.lines.len() as int,
        )
    } else if code == Some(0i32) {
        label + ": clean (no errors or warnings)"@
    } else {
        let tail = match raw_tail {
            Some(t) => text::trim_view(t),
            None => Seq::empty(),
        };
        let lead = label + ": exit code "@ + code_text(code);
        if tail.len() == 0 {
            lead + ", no diagnostics reported"@
        } else {
            lead + ", no parseable diagnostics"@ + (match failure_layer(tail) {
                Some(layer) => " — "@ + layer_text(layer),
                None => Seq::empty(),
            }) + ". Output tail:\n"@ + tail
        }
    }
}

fn feed_lines(ls: &Vec<String>, n: usize) -> (r: String)
    requires
        n <= ls.len(),
    ensures
        r@ == fed(text::views(ls@), n as int),
{
    let mut out = String::new();
    proof {
        assert(out@ =~= fed(text::views(ls@), 0));
    }
    let mut i: usize = 0;
    while i < n
        invariant
            i <= n <= ls.len(),
            out@ == fed(text::views(ls@), i as int),
        decreases n - i,
    {
        assert(text::views(ls@)[i as int] == ls@[i as int]@);
        out = cat3(&out, &ls[i], "\n");
        i += 1;
    }
    out
}

/// The report on a checker's run: its diagnostics, at most so many of them listed and the rest
/// counted; or that it was clean; or, where it failed without a diagnostic, the end of its
/// output and the layer that failed, where it can be told.
pub fn render_report(
    label: &str,
    diags: &ParsedDiagnostics,
    exit_code: Option<i32>,
    raw_tail: Option<&str>,
) -> (r: String)
    ensures
        r@ == report_view(
            label@,
            diags@,
            exit_code,
            match raw_tail {
                Some(t) => Some(t@),
                None => None,
            },
        ),
{
    let n: usize = diags.lines.len();
    if n > 0 {
        let head = cat5(
            label,
            ": ",
            &plural(diags.errors, "error"),
            ", ",
            &plural(diags.warnings, "warning"),
        );
        if n > MAX_DIAGNOSTICS {
            let body = feed_lines(&diags.lines, MAX_DIAGNOSTICS);
            let more = cat3(
                "... and ",
                &dec_string((n - MAX_DIAGNOSTICS) as u128),
                " more diagnostics\n",
            );
            cat4(&head, "\n\n", &body, &more)
        } else {
            let r = cat3(&head, "\n\n", &feed_lines(&diags.lines, n));
            assert(r@ + remainder_text(n as int) =~= r@);
            r
        }
    } else if exit_code == Some(0i32) {
        cat(label, ": clean (no errors or warnings)")
    } else {
        let code = match exit_code {
            Some(c) => signed_string(c as i64),
            None => own("unknown"),
        };
        let lead = cat3(label, ": exit code ", &code);
        let tail = match raw_tail {
            Some(t) => trim(t),
            None => String::new(),
        };
        if tail.as_str().is_empty() {
            return cat(&lead, ", no diagnostics reported");
        }
        let layer = match classify_failure(&tail) {
            Some(layer) => cat(" — ", say_layer(layer)),
            None => String::new(),
        };
        cat5(&lead, ", no parseable diagnostics", &layer, ". Output tail:\n", &tail)
    }
}

/// The last `n` characters of a text.
pub open spec fn last_chars(s: Seq<char>, n: nat) -> Seq<char> {
    if s.len() <= n {
        s
    } else {
        s.skip(s.len() - n)
    }
}

/// The last characters of a text, at most so many.
pub fn tail_chars(s: &str, max_chars: usize) -> (r: String)
    ensures
        r@ == last_chars(s@, max_chars as nat),
{
    let v = chars_of(s);
    let n: usize = v.len();
    let from: usize = if n <= max_chars {
        0
    } else {
        n - max_chars
    };
    let r = string_of(&v, from, n);
    assert(r@ =~= last_chars(s@, max_chars as nat));
    r
}

/// A report lists at most so many diagnostics, and those it lists and those it counts are all.
pub proof fn report_counts_every_diagnostic(n: int)
    requires
        n >= 0,
    ensures
        shown_count(n) <= MAX_DIAGNOSTICS,
        n > MAX_DIAGNOSTICS ==> shown_count(n) + (n - MAX_DIAGNOSTICS) == n,
        n <= MAX_DIAGNOSTICS ==> shown_count(n) == n && remainder_text(n) == Seq::<char>::empty(),
{
}

} // verus!
