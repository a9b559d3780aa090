//! Multi-file patch envelopes: parsing the sections and applying update hunks in sequence.

use vstd::prelude::*;

use crate::diff;
use crate::diff::{DiffLine, LineView, find_matches, join_lines, matches_at, pattern_lines, replacement_lines};
use crate::text;
use crate::text::{
    cat, cat3, cat4, cat5, chars_of, debug_list, dec_string, join, lines, rfind, same, splice,
    starts_with, string_of, strip_prefix, trim, trim_end,
};

verus! {

/// One file section of a patch envelope.
#[derive(Debug)]
pub enum PatchOp {
    Add { path: String, content: String },
    Delete { path: String },
    Update { path: String, move_to: Option<String>, hunks: Vec<UpdateHunk> },
}

/// One hunk of an update section.
#[derive(Debug)]
pub struct UpdateHunk {
    /// A line of the file that must be found, at or after the current position, before the
    /// body is looked for.
    pub anchor: Option<String>,
    /// The body.
    pub lines: Vec<DiffLine>,
    /// Whether the hunk must match at the very end of the file.
    pub at_eof: bool,
}

/// What an [`UpdateHunk`] stands for.
#[verifier::ext_equal]
pub struct UpdateHunkView {
    pub anchor: Option<Seq<char>>,
    pub lines: Seq<LineView>,
    pub at_eof: bool,
}

impl View for UpdateHunk {
    type V = UpdateHunkView;

    open spec fn view(&self) -> UpdateHunkView {
        UpdateHunkView { anchor: text::opt(self.anchor), lines: text::views(self.lines@), at_eof: self.at_eof }
    }
}

/// What a [`PatchOp`] stands for.
pub enum OpView {
    Add { path: Seq<char>, content: Seq<char> },
    Delete { path: Seq<char> },
    Update { path: Seq<char>, move_to: Option<Seq<char>>, hunks: Seq<UpdateHunkView> },
}

impl View for PatchOp {
    type V = OpView;

    open spec fn view(&self) -> OpView {
        match self {
            PatchOp::Add { path, content } => OpView::Add { path: path@, content: content@ },
            PatchOp::Delete { path } => OpView::Delete { path: path@ },
            PatchOp::Update { path, move_to, hunks } => OpView::Update {
                path: path@,
                move_to: text::opt(*move_to),
                hunks: text::views(hunks@),
            },
        }
    }
}

/// How a section is called in messages.
pub open spec fn label_view(op: OpView) -> Seq<char> {
    match op {
        OpView::Add { path, .. } => "Add File: "@ + path,
        OpView::Delete { path } => "Delete File: "@ + path,
        OpView::Update { path, move_to: Some(dest), .. } => "Update File: "@ + path + " -> "@
            + dest,
        OpView::Update { path, move_to: None, .. } => "Update File: "@ + path,
    }
}

impl PatchOp {
    /// How this section is called in messages.
    pub fn label(&self) -> (r: String)
        ensures
            r@ == label_view(self@),
    {
        match self {
            PatchOp::Add { path, .. } => cat("Add File: ", path),
            PatchOp::Delete { path } => cat("Delete File: ", path),
            PatchOp::Update { path, move_to, .. } => match move_to {
                Some(dest) => cat4("Update File: ", path, " -> ", dest),
                None => cat("Update File: ", path),
            },
        }
    }
}

/// The section that an envelope parser is in.
enum Section {
    Outside,
    Add { path: String, lines: Vec<String> },
    Update { path: String, move_to: Option<String>, hunks: Vec<UpdateHunk> },
}

/// What a section in progress stands for.
pub enum SectionView {
    Outside,
    Add { path: Seq<char>, lines: Seq<Seq<char>> },
    Update { path: Seq<char>, move_to: Option<Seq<char>>, hunks: Seq<UpdateHunkView> },
}

impl View for Section {
    type V = SectionView;

    closed spec fn view(&self) -> SectionView {
        match self {
            Section::Outside => SectionView::Outside,
            Section::Add { path, lines } => SectionView::Add { path: path@, lines: text::views(lines@) },
            Section::Update { path, move_to, hunks } => SectionView::Update {
                path: path@,
                move_to: text::opt(*move_to),
                hunks: text::views(hunks@),
            },
        }
    }
}

/// An envelope parser between two lines.
struct Parser {
    ops: Vec<PatchOp>,
    section: Section,
    saw_end: bool,
}

/// What a parser between two lines stands for: the sections that are complete, the one in
/// progress, and whether the end marker has come.
#[verifier::ext_equal]
pub struct ParserView {
    pub ops: Seq<OpView>,
    pub section: SectionView,
    pub saw_end: bool,
}

impl View for Parser {
    type V = ParserView;

    closed spec fn view(&self) -> ParserView {
        ParserView { ops: text::views(self.ops@), section: self.section@, saw_end: self.saw_end }
    }
}

/// Whether no hunk has a body line.
pub open spec fn all_bare(hunks: Seq<UpdateHunkView>) -> bool {
    forall|i: int| 0 <= i < hunks.len() ==> (#[trigger] hunks[i]).lines.len() == 0
}

/// The complete sections once the one in progress has been closed.
pub open spec fn closed(st: ParserView) -> Result<Seq<OpView>, Seq<char>> {
    match st.section {
        SectionView::Outside => Ok(st.ops),
        SectionView::Add { path, lines } => Ok(
            st.ops.push(OpView::Add { path, content: text::join_view(lines, "\n"@) }),
        ),
        SectionView::Update { path, move_to, hunks } => if all_bare(hunks) && move_to is None {
            Err(
                "'*** Update File: "@ + path
                    + "' section has no hunks (and no '*** Move to:')"@,
            )
        } else {
            Ok(st.ops.push(OpView::Update { path, move_to, hunks }))
        },
    }
}

/// The path after a directive.
pub open spec fn directive_path_view(rest: Seq<char>, directive: Seq<char>, no: nat) -> Result<
    Seq<char>,
    Seq<char>,
> {
    let path = text::trim_view(rest);
    if path.len() == 0 {
        Err("line "@ + text::dec(no) + ": missing path after '"@ + directive + "'"@)
    } else {
        Ok(path)
    }
}

/// The anchor that the text after an `@@` marker gives: the text itself, or what follows the
/// closing `@@` of a numeric range.
pub open spec fn anchor_view(rest: Seq<char>) -> Option<Seq<char>> {
    let t = text::trim_view(rest);
    if t.len() == 0 {
        None
    } else if text::starts(t, "-"@) && text::last_position(t, "@@"@) is Some {
        let after = text::trim_view(t.skip(text::last_position(t, "@@"@)->0 + 2));
        if after.len() == 0 {
            None
        } else {
            Some(after)
        }
    } else {
        Some(t)
    }
}

/// The anchor that the text after an `@@` marker gives.
pub fn normalize_hunk_anchor(rest: &str) -> (r: Option<String>)
    ensures
        text::opt(r) == anchor_view(rest@),
{
    let t = trim(rest);
    if t.as_str().is_empty() {
        return None;
    }
    if starts_with(&t, "-") {
        let v = chars_of(&t);
        let marker = chars_of("@@");
        proof {
            reveal_strlit("@@");
        }
        if let Some(pos) = rfind(&v, &marker) {
            let tail = string_of(&v, pos + 2, v.len());
            assert(tail@ =~= t@.skip(pos + 2));
            let after = trim(&tail);
            return if after.as_str().is_empty() {
                None
            } else {
                Some(after)
            };
        }
    }
    Some(t)
}

/// `"line N: "`.
pub open spec fn at_line(no: nat) -> Seq<char> {
    "line "@ + text::dec(no) + ": "@
}

/// A message about line `no`.
fn line_error(no: usize, what: &str) -> (r: String)
    ensures
        r@ == at_line(no as nat) + what@,
{
    cat4("line ", &dec_string(no as u128), ": ", what)
}

/// The state after a `*** Move to:` line.
pub open spec fn step_move(st: ParserView, rest: Seq<char>, no: nat) -> Result<
    ParserView,
    Seq<char>,
> {
    match st.section {
        SectionView::Update { path, move_to: None, hunks } => if hunks.len() == 0 {
            match directive_path_view(rest, "*** Move to:"@, no) {
                Ok(dest) => Ok(
                    ParserView {
                        section: SectionView::Update { path, move_to: Some(dest), hunks },
                        ..st
                    },
                ),
                Err(e) => Err(e),
            }
        } else {
            Err(
                at_line(no)
                    + "'*** Move to:' must appear directly after '*** Update File:' (before any hunks)"@,
            )
        },
        SectionView::Update { .. } => Err(
            at_line(no) + "duplicate '*** Move to:' in one Update section"@,
        ),
        _ => Err(
            at_line(no) + "'*** Move to:' is only valid inside an '*** Update File:' section"@,
        ),
    }
}

/// The hunk list once its last hunk has been pinned to the end of the file.
pub open spec fn pin_last(hunks: Seq<UpdateHunkView>) -> Seq<UpdateHunkView> {
    hunks.drop_last().push(UpdateHunkView { at_eof: true, ..hunks.last() })
}

/// The state after a `*** End of File` line.
pub open spec fn step_eof(st: ParserView, no: nat) -> Result<ParserView, Seq<char>> {
    match st.section {
        SectionView::Update { path, move_to, hunks } if hunks.len() > 0 => Ok(
            ParserView {
                section: SectionView::Update { path, move_to, hunks: pin_last(hunks) },
                ..st
            },
        ),
        _ => Err(
            at_line(no)
                + "'*** End of File' is only valid after a hunk in an '*** Update File:' section"@,
        ),
    }
}

/// A hunk without a body.
pub open spec fn bare_hunk(anchor: Option<Seq<char>>) -> UpdateHunkView {
    UpdateHunkView { anchor, lines: Seq::empty(), at_eof: false }
}

/// The hunk list with `line` at the end of its last hunk.
pub open spec fn add_to_last(hunks: Seq<UpdateHunkView>, line: LineView) -> Seq<
    UpdateHunkView,
> {
    let h = hunks.last();
    hunks.drop_last().push(UpdateHunkView { lines: h.lines.push(line), ..h })
}

/// How a body line of an update hunk is taken: `Ok(None)` passes it over, `Err` refuses it.
pub open spec fn update_line(line: Seq<char>) -> Result<Option<LineView>, ()> {
    match (
        text::after_prefix(line, "+"@),
        text::after_prefix(line, "-"@),
        text::after_prefix(line, " "@),
    ) {
        (Some(rest), _, _) => Ok(Some(LineView::Add(rest))),
        (None, Some(rest), _) => Ok(Some(LineView::Remove(rest))),
        (None, None, Some(rest)) => Ok(Some(LineView::Context(rest))),
        (None, None, None) => if line.len() == 0 {
            Ok(Some(LineView::Context(Seq::empty())))
        } else if text::starts(line, "\\"@) {
            Ok(None)
        } else {
            Err(())
        },
    }
}

/// The hunk list after a line in an update section that is no directive.
pub open spec fn step_hunks(hunks: Seq<UpdateHunkView>, line: Seq<char>, no: nat) -> Result<
    Seq<UpdateHunkView>,
    Seq<char>,
> {
    if hunks.len() > 0 && hunks.last().at_eof {
        if text::trim_view(line).len() == 0 {
            Ok(hunks)
        } else {
            Err(
                at_line(no)
                    + "content after '*** End of File' in an '*** Update File:' section ('*** End of File' closes the section's hunks; only a new '*** ' directive may follow)"@,
            )
        }
    } else {
        match text::after_prefix(line, "@@"@) {
            Some(rest) => Ok(hunks.push(bare_hunk(anchor_view(rest)))),
            None => {
                let open = if hunks.len() == 0 {
                    hunks.push(bare_hunk(None))
                } else {
                    hunks
                };
                match update_line(line) {
                    Ok(Some(l)) => Ok(add_to_last(open, l)),
                    Ok(None) => Ok(open),
                    Err(()) => Err(
                        at_line(no)
                            + "lines in an '*** Update File:' hunk must start with '+', '-', or ' ' (context)"@,
                    ),
                }
            },
        }
    }
}

/// The state after a line that is no directive.
pub open spec fn step_body(st: ParserView, line: Seq<char>, no: nat) -> Result<
    ParserView,
    Seq<char>,
> {
    match st.section {
        SectionView::Outside => if text::trim_view(line).len() == 0 {
            Ok(st)
        } else {
            Err(at_line(no) + "expected a '*** ' directive, got: "@ + line)
        },
        SectionView::Add { path, lines } => match text::after_prefix(line, "+"@) {
            Some(rest) => Ok(
                ParserView {
                    section: SectionView::Add { path, lines: lines.push(rest) },
                    ..st
                },
            ),
            None => if line.len() == 0 {
                Ok(
                    ParserView {
                        section: SectionView::Add { path, lines: lines.push(Seq::empty()) },
                        ..st
                    },
                )
            } else {
                Err(
                    at_line(no)
                        + "lines in an '*** Add File:' section must start with '+'"@,
                )
            },
        },
        SectionView::Update { path, move_to, hunks } => match step_hunks(hunks, line, no) {
            Ok(next) => Ok(
                ParserView {
                    section: SectionView::Update { path, move_to, hunks: next },
                    ..st
                },
            ),
            Err(e) => Err(e),
        },
    }
}

/// The state after one more line, number `no` of the input.
pub open spec fn step_view(st: ParserView, line: Seq<char>, no: nat) -> Result<
    ParserView,
    Seq<char>,
> {
    if st.saw_end {
        if text::trim_view(line).len() == 0 {
            Ok(st)
        } else {
            Err(at_line(no) + "content after '*** End Patch'"@)
        }
    } else if line == "*** End Patch"@ {
        match closed(st) {
            Ok(ops) => Ok(ParserView { ops, section: SectionView::Outside, saw_end: true }),
            Err(e) => Err(e),
        }
    } else if text::starts(line, "*** Add File: "@) {
        match (
            closed(st),
            directive_path_view(
                text::after_prefix(line, "*** Add File: "@)->0,
                "*** Add File:"@,
                no,
            ),
        ) {
            (Ok(ops), Ok(path)) => Ok(
                ParserView {
                    ops,
                    section: SectionView::Add { path, lines: Seq::empty() },
                    saw_end: false,
                },
            ),
            (Err(e), _) => Err(e),
            (_, Err(e)) => Err(e),
        }
    } else if text::starts(line, "*** Delete File: "@) {
        match (
            closed(st),
            directive_path_view(
                text::after_prefix(line, "*** Delete File: "@)->0,
                "*** Delete File:"@,
                no,
            ),
        ) {
            (Ok(ops), Ok(path)) => Ok(
                ParserView {
                    ops: ops.push(OpView::Delete { path }),
                    section: SectionView::Outside,
                    saw_end: false,
                },
            ),
            (Err(e), _) => Err(e),
            (_, Err(e)) => Err(e),
        }
    } else if text::starts(line, "*** Update File: "@) {
        match (
            closed(st),
            directive_path_view(
                text::after_prefix(line, "*** Update File: "@)->0,
                "*** Update File:"@,
                no,
            ),
        ) {
            (Ok(ops), Ok(path)) => Ok(
                ParserView {
                    ops,
                    section: SectionView::Update { path, move_to: None, hunks: Seq::empty() },
                    saw_end: false,
                },
            ),
            (Err(e), _) => Err(e),
            (_, Err(e)) => Err(e),
        }
    } else if text::starts(line, "*** Move to: "@) {
        step_move(st, text::after_prefix(line, "*** Move to: "@)->0, no)
    } else if line == "*** End of File"@ {
        step_eof(st, no)
    } else if text::starts(line, "***"@) {
        Err(
            at_line(no) + "unrecognized or malformed directive: "@ + line
                + " (expected '*** Add File: <path>', '*** Delete File: <path>', '*** Update File: <path>', '*** Move to: <path>', or '*** End Patch')"@,
        )
    } else {
        step_body(st, line, no)
    }
}

/// The path after a directive.
fn directive_path(rest: &str, directive: &str, no: usize) -> (r: Result<String, String>)
    ensures
        text::text_or_text(r) == directive_path_view(rest@, directive@, no as nat),
{
    let path = trim(rest);
    if path.as_str().is_empty() {
        Err(cat5("line ", &dec_string(no as u128), ": missing path after '", directive, "'"))
    } else {
        Ok(path)
    }
}

/// Whether no hunk has a body line.
fn hunks_are_bare(hunks: &Vec<UpdateHunk>) -> (r: bool)
    ensures
        r == all_bare(text::views(hunks@)),
{
    let mut i: usize = 0;
    while i < hunks.len()
        invariant
            i <= hunks.len(),
            forall|k: int| 0 <= k < i ==> (#[trigger] hunks@[k]).lines.len() == 0,
        decreases hunks.len() - i,
    {
        if hunks[i].lines.len() > 0 {
            assert(text::views(hunks@)[i as int].lines.len() > 0);
            return false;
        }
        i += 1;
    }
    assert forall|k: int| 0 <= k < hunks.len() implies (#[trigger] text::views(
        hunks@,
    )[k]).lines.len() == 0 by {
        assert(hunks@[k].lines.len() == 0);
    }
    true
}

/// Takes a body line of an update hunk.
fn classify_update_line(line: &str) -> (r: Result<Option<DiffLine>, ()>)
    ensures
        (match r {
            Ok(Some(l)) => Ok(Some(l@)),
            Ok(None) => Ok(None),
            Err(()) => Err(()),
        }) == update_line(line@),
{
    if let Some(rest) = strip_prefix(line, "+") {
        return Ok(Some(DiffLine::Add(rest)));
    }
    if let Some(rest) = strip_prefix(line, "-") {
        return Ok(Some(DiffLine::Remove(rest)));
    }
    if let Some(rest) = strip_prefix(line, " ") {
        return Ok(Some(DiffLine::Context(rest)));
    }
    if line.is_empty() {
        return Ok(Some(DiffLine::Context(String::new())));
    }
    if starts_with(line, "\\") {
        Ok(None)
    } else {
        Err(())
    }
}

/// The hunk list after a line in an update section that is no directive.
fn take_hunk_line(hunks: Vec<UpdateHunk>, line: &str, no: usize) -> (r: Result<
    Vec<UpdateHunk>,
    String,
>)
    ensures
        text::list_or_text(r) == step_hunks(text::views(hunks@), line@, no as nat),
{
    broadcast use text::lemma_views_push;

    let mut hunks = hunks;
    let ghost before = text::views(hunks@);
    let n: usize = hunks.len();
    if n > 0 && hunks[n - 1].at_eof {
        let blank = trim(line);
        return if blank.as_str().is_empty() {
            Ok(hunks)
        } else {
            Err(
                line_error(
                    no,
                    "content after '*** End of File' in an '*** Update File:' section ('*** End of File' closes the section's hunks; only a new '*** ' directive may follow)",
                ),
            )
        };
    }
    if let Some(rest) = strip_prefix(line, "@@") {
        let fresh = UpdateHunk {
            anchor: normalize_hunk_anchor(&rest),
            lines: Vec::new(),
            at_eof: false,
        };
        proof {
            text::lemma_views_empty(fresh.lines@);
        }
        hunks.push(fresh);
        return Ok(hunks);
    }
    if n == 0 {
        let fresh = UpdateHunk { anchor: None, lines: Vec::new(), at_eof: false };
        proof {
            text::lemma_views_empty(fresh.lines@);
        }
        hunks.push(fresh);
    }
    let ghost open = text::views(hunks@);
    match classify_update_line(line) {
        Ok(Some(l)) => {
            if let Some(mut h) = hunks.pop() {
                assert(open.last() == h@);
                h.lines.push(l);
                hunks.push(h);
                assert(text::views(hunks@) =~= add_to_last(open, l@));
            }
            Ok(hunks)
        },
        Ok(None) => Ok(hunks),
        Err(()) => Err(
            line_error(
                no,
                "lines in an '*** Update File:' hunk must start with '+', '-', or ' ' (context)",
            ),
        ),
    }
}

impl Parser {
    /// The complete sections once the one in progress has been closed.
    fn close(self) -> (r: Result<Vec<PatchOp>, String>)
        ensures
            text::list_or_text(r) == closed(self@),
    {
        broadcast use text::lemma_views_push;

        let mut ops = self.ops;
        match self.section {
            Section::Outside => Ok(ops),
            Section::Add { path, lines } => {
                let content = join(&lines, "\n");
                ops.push(PatchOp::Add { path, content });
                Ok(ops)
            },
            Section::Update { path, move_to, hunks } => {
                if hunks_are_bare(&hunks) && move_to.is_none() {
                    Err(
                        cat3(
                            "'*** Update File: ",
                            &path,
                            "' section has no hunks (and no '*** Move to:')",
                        ),
                    )
                } else {
                    ops.push(PatchOp::Update { path, move_to, hunks });
                    Ok(ops)
                }
            },
        }
    }

    /// The state after a `*** Move to:` line.
    fn move_to(self, rest: &str, no: usize) -> (r: Result<Parser, String>)
        ensures
            parser_or_text(r) == step_move(self@, rest@, no as nat),
    {
        match self.section {
            Section::Update { path, move_to: None, hunks } => {
                if hunks.len() == 0 {
                    match directive_path(rest, "*** Move to:", no) {
                        Ok(dest) => Ok(
                            Parser {
                                ops: self.ops,
                                section: Section::Update { path, move_to: Some(dest), hunks },
                                saw_end: self.saw_end,
                            },
                        ),
                        Err(e) => Err(e),
                    }
                } else {
                    Err(
                        line_error(
                            no,
                            "'*** Move to:' must appear directly after '*** Update File:' (before any hunks)",
                        ),
                    )
                }
            },
            Section::Update { .. } => Err(
                line_error(no, "duplicate '*** Move to:' in one Update section"),
            ),
            _ => Err(
                line_error(
                    no,
                    "'*** Move to:' is only valid inside an '*** Update File:' section",
                ),
            ),
        }
    }

    /// The state after a `*** End of File` line.
    fn end_of_file(self, no: usize) -> (r: Result<Parser, String>)
        ensures
            parser_or_text(r) == step_eof(self@, no as nat),
    {
        broadcast use text::lemma_views_push;

        match self.section {
            Section::Update { path, move_to, hunks } => {
                let mut hunks = hunks;
                let ghost before = text::views(hunks@);
                match hunks.pop() {
                    Some(mut h) => {
                        assert(before.last() == h@);
                        h.at_eof = true;
                        hunks.push(h);
                        assert(text::views(hunks@) =~= pin_last(before));
                        Ok(
                            Parser {
                                ops: self.ops,
                                section: Section::Update { path, move_to, hunks },
                                saw_end: self.saw_end,
                            },
                        )
                    },
                    None => Err(
                        line_error(
                            no,
                            "'*** End of File' is only valid after a hunk in an '*** Update File:' section",
                        ),
                    ),
                }
            },
            _ => Err(
                line_error(
                    no,
                    "'*** End of File' is only valid after a hunk in an '*** Update File:' section",
                ),
            ),
        }
    }

    /// The state after a line that is no directive.
    fn body(self, line: &str, no: usize) -> (r: Result<Parser, String>)
        ensures
            parser_or_text(r) == step_body(self@, line@, no as nat),
    {
        broadcast use text::lemma_views_push;

        match self.section {
            Section::Outside => {
                let blank = trim(line);
                if blank.as_str().is_empty() {
                    Ok(self)
                } else {
                    let mut e = line_error(no, "expected a '*** ' directive, got: ");
                    e.append(line);
                    Err(e)
                }
            },
            Section::Add { path, lines } => {
                let mut lines = lines;
                match strip_prefix(line, "+") {
                    Some(rest) => {
                        lines.push(rest);
                    },
                    None => {
                        if line.is_empty() {
                            lines.push(String::new());
                        } else {
                            return Err(
                                line_error(
                                    no,
                                    "lines in an '*** Add File:' section must start with '+'",
                                ),
                            );
                        }
                    },
                }
                Ok(
                    Parser {
                        ops: self.ops,
                        section: Section::Add { path, lines },
                        saw_end: self.saw_end,
                    },
                )
            },
            Section::Update { path, move_to, hunks } => match take_hunk_line(hunks, line, no) {
                Ok(hunks) => Ok(
                    Parser {
                        ops: self.ops,
                        section: Section::Update { path, move_to, hunks },
                        saw_end: self.saw_end,
                    },
                ),
                Err(e) => Err(e),
            },
        }
    }

    /// The state after one more line, number `no` of the input.
    fn step(self, line: &String, no: usize) -> (r: Result<Parser, String>)
        ensures
            parser_or_text(r) == step_view(self@, line@, no as nat),
    {
        broadcast use text::lemma_views_push;

        if self.saw_end {
            let blank = trim(line);
            return if blank.as_str().is_empty() {
                Ok(self)
            } else {
                Err(line_error(no, "content after '*** End Patch'"))
            };
        }
        if same(line, "*** End Patch") {
            return match self.close() {
                Ok(ops) => Ok(Parser { ops, section: Section::Outside, saw_end: true }),
                Err(e) => Err(e),
            };
        }
        if let Some(rest) = strip_prefix(line, "*** Add File: ") {
            let ops = match self.close() {
                Ok(ops) => ops,
                Err(e) => {
                    return Err(e);
                },
            };
            return match directive_path(&rest, "*** Add File:", no) {
                Ok(path) => {
                    let lines: Vec<String> = Vec::new();
                    proof {
                        text::lemma_views_empty(lines@);
                    }
                    Ok(Parser { ops, section: Section::Add { path, lines }, saw_end: false })
                },
                Err(e) => Err(e),
            };
        }
        if let Some(rest) = strip_prefix(line, "*** Delete File: ") {
            let mut ops = match self.close() {
                Ok(ops) => ops,
                Err(e) => {
                    return Err(e);
                },
            };
            return match directive_path(&rest, "*** Delete File:", no) {
                Ok(path) => {
                    ops.push(PatchOp::Delete { path });
                    Ok(Parser { ops, section: Section::Outside, saw_end: false })
                },
                Err(e) => Err(e),
            };
        }
        if let Some(rest) = strip_prefix(line, "*** Update File: ") {
            let ops = match self.close() {
                Ok(ops) => ops,
                Err(e) => {
                    return Err(e);
                },
            };
            return match directive_path(&rest, "*** Update File:", no) {
                Ok(path) => {
                    let hunks: Vec<UpdateHunk> = Vec::new();
                    proof {
                        text::lemma_views_empty(hunks@);
                    }
                    Ok(
                        Parser {
                            ops,
                            section: Section::Update { path, move_to: None, hunks },
                            saw_end: false,
                        },
                    )
                },
                Err(e) => Err(e),
            };
        }
        if let Some(rest) = strip_prefix(line, "*** Move to: ") {
            return self.move_to(&rest, no);
        }
        if same(line, "*** End of File") {
            return self.end_of_file(no);
        }
        if starts_with(line, "***") {
            let mut e = line_error(no, "unrecognized or malformed directive: ");
            e.append(line);
            e.append(
                " (expected '*** Add File: <path>', '*** Delete File: <path>', '*** Update File: <path>', '*** Move to: <path>', or '*** End Patch')",
            );
            return Err(e);
        }
        self.body(line, no)
    }
}

/// The view of a parser or of the message that stands in its place.
spec fn parser_or_text(r: Result<Parser, String>) -> Result<ParserView, Seq<char>> {
    match r {
        Ok(p) => Ok(p@),
        Err(e) => Err(e@),
    }
}

/// The lines of an envelope: those of the text, without carriage returns at their ends.
pub open spec fn envelope_lines(input: Seq<char>) -> Seq<Seq<char>> {
    let ls = text::lines_view(input);
    Seq::new(ls.len(), |i: int| text::drop_cr(ls[i]))
}

/// The first line from `i` on that is not blank, or the number of lines.
pub open spec fn first_filled(ls: Seq<Seq<char>>, i: int) -> int
    decreases ls.len() - i,
{
    if i >= ls.len() || text::trim_view(ls[i]).len() > 0 {
        i
    } else {
        first_filled(ls, i + 1)
    }
}

/// The sections of an envelope, from its line `i` on.
pub open spec fn envelope_from(ls: Seq<Seq<char>>, i: int, st: ParserView) -> Result<
    Seq<OpView>,
    Seq<char>,
>
    decreases ls.len() - i,
{
    if i >= ls.len() {
        if !st.saw_end {
            Err("patch is missing '*** End Patch'"@)
        } else if st.ops.len() == 0 {
            Err("patch contains no file sections"@)
        } else {
            Ok(st.ops)
        }
    } else {
        match step_view(st, ls[i], (i + 1) as nat) {
            Ok(next) => envelope_from(ls, i + 1, next),
            Err(e) => Err(e),
        }
    }
}

/// The sections of a patch envelope.
pub open spec fn envelope_view(input: Seq<char>) -> Result<Seq<OpView>, Seq<char>> {
    let ls = envelope_lines(input);
    let begin = first_filled(ls, 0);
    if begin < ls.len() && ls[begin] == "*** Begin Patch"@ {
        envelope_from(
            ls,
            begin + 1,
            ParserView { ops: Seq::empty(), section: SectionView::Outside, saw_end: false },
        )
    } else {
        Err("patch must start with '*** Begin Patch'"@)
    }
}

/// `line` without one carriage return at its end.
fn without_cr(line: &str) -> (r: String)
    ensures
        r@ == text::drop_cr(line@),
{
    let v = chars_of(line);
    let n: usize = v.len();
    if n > 0 && v[n - 1] == '\r' {
        let r = string_of(&v, 0, n - 1);
        assert(r@ =~= line@.drop_last());
        r
    } else {
        let r = string_of(&v, 0, n);
        assert(r@ =~= line@);
        r
    }
}

/// Parses a patch envelope into its file sections, or gives the message for the first
/// thing wrong with it.
pub fn parse_patch_envelope(input: &str) -> (r: Result<Vec<PatchOp>, String>)
    ensures
        text::list_or_text(r) == envelope_view(input@),
{
    let raw = lines(input);
    let mut ls: Vec<String> = Vec::new();
    let mut i: usize = 0;
    while i < raw.len()
        invariant
            i <= raw.len(),
            text::views(raw@) == text::lines_view(input@),
            ls.len() == i,
            forall|k: int| 0 <= k < i ==> #[trigger] ls@[k]@ == text::drop_cr(raw@[k]@),
        decreases raw.len() - i,
    {
        ls.push(without_cr(&raw[i]));
        i += 1;
    }
    let ghost lv = envelope_lines(input@);
    assert(text::views(ls@) =~= lv) by {
        assert forall|k: int| 0 <= k < ls.len() implies #[trigger] text::views(ls@)[k] == lv[k] by {
            assert(text::views(raw@)[k] == raw@[k]@);
        }
    }
    let mut begin: usize = 0;
    while begin < ls.len()
        invariant
            begin <= ls.len(),
            text::views(ls@) == lv,
            first_filled(lv, begin as int) == first_filled(lv, 0),
        ensures
            begin == first_filled(lv, 0),
            begin <= ls.len(),
        decreases ls.len() - begin,
    {
        assert(lv[begin as int] == ls@[begin as int]@);
        let t = trim(&ls[begin]);
        if !t.as_str().is_empty() {
            break;
        }
        begin += 1;
    }
    if begin >= ls.len() || !same(&ls[begin], "*** Begin Patch") {
        return Err("patch must start with '*** Begin Patch'".to_owned());
    }
    let mut st = Parser { ops: Vec::new(), section: Section::Outside, saw_end: false };
    proof {
        text::lemma_views_empty(st.ops@);
    }
    let mut k: usize = begin + 1;
    while k < ls.len()
        invariant
            k <= ls.len(),
            text::views(ls@) == lv,
            envelope_from(lv, k as int, st@) == envelope_view(input@),
        decreases ls.len() - k,
    {
        assert(lv[k as int] == ls@[k as int]@);
        match st.step(&ls[k], k + 1) {
            Ok(next) => {
                st = next;
            },
            Err(e) => {
                return Err(e);
            },
        }
        k += 1;
    }
    if !st.saw_end {
        return Err("patch is missing '*** End Patch'".to_owned());
    }
    if st.ops.len() == 0 {
        return Err("patch contains no file sections".to_owned());
    }
    Ok(st.ops)
}

/// Whether a file line is the anchor: trailing white space aside or, loosely, all white
/// space at either end aside.
pub open spec fn is_anchor(line: Seq<char>, anchor: Seq<char>, loose: bool) -> bool {
    if loose {
        text::trim_view(line) == text::trim_view(anchor)
    } else {
        text::trim_end_view(line) == text::trim_end_view(anchor)
    }
}

/// The lines from `from` on that are the anchor.
pub open spec fn anchor_positions(
    ls: Seq<Seq<char>>,
    anchor: Seq<char>,
    from: int,
    loose: bool,
) -> Seq<int>
    decreases ls.len() - from,
{
    if from >= ls.len() {
        Seq::empty()
    } else if is_anchor(ls[from], anchor, loose) {
        seq![from] + anchor_positions(ls, anchor, from + 1, loose)
    } else {
        anchor_positions(ls, anchor, from + 1, loose)
    }
}

/// The lines from `from` on that are the anchor.
fn find_anchors(ls: &Vec<String>, anchor: &str, from: usize, loose: bool) -> (r: Vec<usize>)
    requires
        from <= ls.len(),
    ensures
        diff::ints(r@) == anchor_positions(text::views(ls@), anchor@, from as int, loose),
        forall|k: int| 0 <= k < r.len() ==> from <= #[trigger] r@[k] < ls.len(),
{
    let mut found: Vec<usize> = Vec::new();
    let ghost lv = text::views(ls@);
    let ghost all = anchor_positions(lv, anchor@, from as int, loose);
    let mut at: usize = from;
    assert(diff::ints(found@) + all =~= all);
    while at < ls.len()
        invariant
            from <= at <= ls.len(),
            lv == text::views(ls@),
            diff::ints(found@) + anchor_positions(lv, anchor@, at as int, loose) == all,
            forall|k: int| 0 <= k < found.len() ==> from <= #[trigger] found@[k] < at,
        decreases ls.len() - at,
    {
        let ghost before = diff::ints(found@);
        assert(lv[at as int] == ls@[at as int]@);
        let hit = if loose {
            trim(&ls[at]) == trim(anchor)
        } else {
            trim_end(&ls[at]) == trim_end(anchor)
        };
        if hit {
            found.push(at);
            assert(diff::ints(found@) =~= before.push(at as int));
        }
        assert(diff::ints(found@) + anchor_positions(lv, anchor@, at + 1, loose) =~= all);
        at += 1;
    }
    assert(diff::ints(found@) + anchor_positions(lv, anchor@, at as int, loose) =~= diff::ints(
        found@,
    ));
    found
}

/// Where the search for a hunk body starts: behind its anchor, where it has one.
pub open spec fn anchored(
    ls: Seq<Seq<char>>,
    cursor: int,
    anchor: Option<Seq<char>>,
    no: nat,
) -> Result<int, Seq<char>> {
    match anchor {
        None => Ok(cursor),
        Some(a) => {
            let exact = anchor_positions(ls, a, cursor, false);
            let found = if exact.len() == 0 {
                anchor_positions(ls, a, cursor, true)
            } else {
                exact
            };
            if found.len() == 1 {
                Ok(found[0] + 1)
            } else if found.len() == 0 {
                Err(
                    "hunk "@ + text::dec(no) + ": context marker '@@ "@ + a
                        + "' not found in the file (searched from line "@ + text::dec(
                        (cursor + 1) as nat,
                    ) + ")"@,
                )
            } else {
                Err(
                    "hunk "@ + text::dec(no) + ": context marker '@@ "@ + a
                        + "' is ambiguous (found "@ + text::dec(found.len())
                        + " locations); provide more surrounding context"@,
                )
            }
        },
    }
}

/// Where the search for a hunk body starts.
fn seek_anchor(ls: &Vec<String>, cursor: usize, anchor: &Option<String>, no: usize) -> (r: Result<
    usize,
    String,
>)
    requires
        cursor <= ls.len(),
    ensures
        (match r {
            Ok(n) => Ok(n as int),
            Err(e) => Err(e@),
        }) == anchored(text::views(ls@), cursor as int, text::opt(*anchor), no as nat),
        r matches Ok(n) ==> cursor <= n <= ls.len(),
{
    match anchor {
        None => Ok(cursor),
        Some(a) => {
            let exact = find_anchors(ls, a, cursor, false);
            let ghost exact_view = diff::ints(exact@);
            assert(exact_view.len() == exact.len());
            let found = if exact.len() == 0 {
                find_anchors(ls, a, cursor, true)
            } else {
                exact
            };
            assert(diff::ints(found@).len() == found.len());
            if found.len() == 1 {
                assert(diff::ints(found@)[0] == found@[0]);
                Ok(found[0] + 1)
            } else if found.len() == 0 {
                let mut e = cat5(
                    "hunk ",
                    &dec_string(no as u128),
                    ": context marker '@@ ",
                    a,
                    "' not found in the file (searched from line ",
                );
                e.append(&dec_string(cursor as u128 + 1));
                e.append(")");
                Err(e)
            } else {
                let mut e = cat5(
                    "hunk ",
                    &dec_string(no as u128),
                    ": context marker '@@ ",
                    a,
                    "' is ambiguous (found ",
                );
                e.append(&dec_string(found.len() as u128));
                e.append(" locations); provide more surrounding context");
                Err(e)
            }
        },
    }
}

/// The only line from `from` on at which the block stands: `Ok(None)` where there is none,
/// `Err` with their number where there are several.
pub open spec fn unique_block(ls: Seq<Seq<char>>, pattern: Seq<Seq<char>>, from: int) -> Result<
    Option<int>,
    nat,
> {
    if pattern.len() == 0 || pattern.len() > ls.len() {
        Ok(None)
    } else {
        let found = diff::match_positions(ls, pattern, from, ls.len() - pattern.len());
        if found.len() == 0 {
            Ok(None)
        } else if found.len() == 1 {
            Ok(Some(found[0]))
        } else {
            Err(found.len())
        }
    }
}

/// Finds the only line from `from` on at which the block stands.
pub fn find_unique_block_from(ls: &Vec<String>, pattern: &Vec<String>, from: usize) -> (r: Result<
    Option<usize>,
    usize,
>)
    ensures
        (match r {
            Ok(Some(n)) => Ok(Some(n as int)),
            Ok(None) => Ok(None),
            Err(c) => Err(c as nat),
        }) == unique_block(text::views(ls@), text::views(pattern@), from as int),
        r matches Ok(Some(n)) ==> from <= n && n + pattern.len() <= ls.len(),
{
    if pattern.len() == 0 || pattern.len() > ls.len() {
        return Ok(None);
    }
    let last: usize = ls.len() - pattern.len();
    let found = find_matches(ls, pattern, from, last);
    let ghost all = diff::match_positions(
        text::views(ls@),
        text::views(pattern@),
        from as int,
        last as int,
    );
    assert(all.len() == found.len());
    if found.len() == 0 {
        Ok(None)
    } else if found.len() == 1 {
        proof {
            diff::lemma_positions_hold(
                text::views(ls@),
                text::views(pattern@),
                from as int,
                last as int,
            );
            assert(all[0] == found@[0]);
        }
        Ok(Some(found[0]))
    } else {
        Err(found.len())
    }
}

/// The lines `from..to` that a hunk replaces.
pub open spec fn hunk_range(
    ls: Seq<Seq<char>>,
    cursor: int,
    hunk: UpdateHunkView,
    no: nat,
) -> Result<(int, int), Seq<char>> {
    let pattern = diff::pattern_view(hunk.lines);
    if pattern.len() == 0 {
        if hunk.at_eof {
            Ok((ls.len() as int, ls.len() as int))
        } else if hunk.anchor is Some {
            Ok((cursor, cursor))
        } else if ls.len() == 0 {
            Ok((0, 0))
        } else {
            Err(
                "hunk "@ + text::dec(no)
                    + " has no context lines; add ' ' context lines, an '@@ <anchor>' marker, or '*** End of File'"@,
            )
        }
    } else {
        let found: Result<Option<int>, nat> = if hunk.at_eof {
            let pos = ls.len() - pattern.len();
            if pos >= cursor && diff::block_at(ls, pattern, pos) {
                Ok(Some(pos))
            } else {
                Ok(None)
            }
        } else {
            unique_block(ls, pattern, cursor)
        };
        match found {
            Ok(Some(pos)) => Ok((pos, pos + pattern.len())),
            Ok(None) => Err(
                "hunk "@ + text::dec(no)
                    + ": could not find the context/removed lines in the file (searched from line "@
                    + text::dec((cursor + 1) as nat) + "). Expected block starting with: "@
                    + text::debug_list_view(
                    pattern.take(
                        if 3 <= pattern.len() {
                            3int
                        } else {
                            pattern.len() as int
                        },
                    ),
                ),
            ),
            Err(count) => Err(
                "hunk "@ + text::dec(no)
                    + ": context/removed lines are ambiguous (found "@ + text::dec(count)
                    + " locations); provide more surrounding context"@,
            ),
        }
    }
}

/// Finds the lines that a hunk replaces.
fn find_hunk_range(
    ls: &Vec<String>,
    cursor: usize,
    hunk: &UpdateHunk,
    pattern: &Vec<String>,
    no: usize,
) -> (r: Result<(usize, usize), String>)
    requires
        cursor <= ls.len(),
        text::views(pattern@) == diff::pattern_view(hunk@.lines),
    ensures
        (match r {
            Ok((a, b)) => Ok((a as int, b as int)),
            Err(e) => Err(e@),
        }) == hunk_range(text::views(ls@), cursor as int, hunk@, no as nat),
        r matches Ok((a, b)) ==> cursor <= a <= b <= ls.len(),
        hunk.at_eof ==> (r matches Ok((a, b)) ==> b == ls.len()),
{
    assert(pattern.len() == diff::pattern_view(hunk@.lines).len());
    assert(ls.len() == text::views(ls@).len());
    if pattern.len() == 0 {
        return if hunk.at_eof {
            Ok((ls.len(), ls.len()))
        } else if hunk.anchor.is_some() {
            Ok((cursor, cursor))
        } else if ls.len() == 0 {
            Ok((0, 0))
        } else {
            Err(
                cat3(
                    "hunk ",
                    &dec_string(no as u128),
                    " has no context lines; add ' ' context lines, an '@@ <anchor>' marker, or '*** End of File'",
                ),
            )
        };
    }
    let found: Result<Option<usize>, usize> = if hunk.at_eof {
        if pattern.len() <= ls.len() && ls.len() - pattern.len() >= cursor && matches_at(
            ls,
            pattern,
            ls.len() - pattern.len(),
        ) {
            Ok(Some(ls.len() - pattern.len()))
        } else {
            Ok(None)
        }
    } else {
        find_unique_block_from(ls, pattern, cursor)
    };
    match found {
        Ok(Some(pos)) => Ok((pos, pos + pattern.len())),
        Ok(None) => {
            let mut e = cat5(
                "hunk ",
                &dec_string(no as u128),
                ": could not find the context/removed lines in the file (searched from line ",
                &dec_string(cursor as u128 + 1),
                "). Expected block starting with: ",
            );
            e.append(&debug_list(pattern, 3));
            Err(e)
        },
        Err(count) => Err(
            cat5(
                "hunk ",
                &dec_string(no as u128),
                ": context/removed lines are ambiguous (found ",
                &dec_string(count as u128),
                " locations); provide more surrounding context",
            ),
        ),
    }
}

/// The lines that come of applying the hunks from number `k` on, each looked for at or
/// after the place where the one before it ended.
pub open spec fn hunks_from(
    ls: Seq<Seq<char>>,
    cursor: int,
    hunks: Seq<UpdateHunkView>,
    k: int,
) -> Result<Seq<Seq<char>>, Seq<char>>
    decreases hunks.len() - k,
{
    if k >= hunks.len() {
        Ok(ls)
    } else {
        let hunk = hunks[k];
        let no = (k + 1) as nat;
        match anchored(ls, cursor, hunk.anchor, no) {
            Err(e) => Err(e),
            Ok(start) => match hunk_range(ls, start, hunk, no) {
                Err(e) => Err(e),
                Ok((a, b)) => {
                    let fresh = diff::replacement_view(hunk.lines);
                    hunks_from(
                        text::splice_view(ls, a, b, fresh),
                        a + fresh.len(),
                        hunks,
                        k + 1,
                    )
                },
            },
        }
    }
}

/// The text that comes of applying update hunks to `content`.
pub open spec fn updated(content: Seq<char>, hunks: Seq<UpdateHunkView>) -> Result<
    Seq<char>,
    Seq<char>,
> {
    match hunks_from(text::lines_view(content), 0, hunks, 0) {
        Ok(ls) => Ok(diff::unlines(ls, content)),
        Err(e) => Err(e),
    }
}

/// Applies update hunks to `content` in sequence, or gives a message that names the hunk
/// that cannot be placed.
pub fn apply_codex_hunks(content: &str, hunks: &Vec<UpdateHunk>) -> (r: Result<String, String>)
    ensures
        text::text_or_text(r) == updated(content@, text::views(hunks@)),
{
    let mut ls = lines(content);
    let mut cursor: usize = 0;
    let mut k: usize = 0;
    let ghost hv = text::views(hunks@);
    while k < hunks.len()
        invariant
            k <= hunks.len(),
            hv == text::views(hunks@),
            cursor <= ls.len(),
            hunks_from(text::views(ls@), cursor as int, hv, k as int) == hunks_from(
                text::lines_view(content@),
                0,
                hv,
                0,
            ),
        decreases hunks.len() - k,
    {
        let hunk = &hunks[k];
        assert(hunk@ == hv[k as int]);
        let no: usize = k + 1;
        let start: usize = match seek_anchor(&ls, cursor, &hunk.anchor, no) {
            Ok(n) => n,
            Err(e) => {
                return Err(e);
            },
        };
        let pattern = pattern_lines(&hunk.lines);
        let (a, b): (usize, usize) = match find_hunk_range(&ls, start, hunk, &pattern, no) {
            Ok(range) => range,
            Err(e) => {
                return Err(e);
            },
        };
        let fresh = replacement_lines(&hunk.lines);
        let spliced = splice(&ls, a, b, &fresh);
        assert(spliced.len() == text::views(spliced@).len());
        assert(fresh.len() == text::views(fresh@).len());
        cursor = a + fresh.len();
        ls = spliced;
        k += 1;
    }
    Ok(join_lines(&ls, content))
}

/// A patch that parses has a section, and each of its updates has a body line or a
/// destination.
pub proof fn parsed_patch_has_work(input: Seq<char>)
    ensures
        envelope_view(input) matches Ok(ops) ==> {
            &&& ops.len() > 0
            &&& forall|i: int| 0 <= i < ops.len() ==> has_work(#[trigger] ops[i])
        },
{
    let ls = envelope_lines(input);
    let begin = first_filled(ls, 0);
    lemma_first_filled(ls, 0);
    lemma_envelope_from(
        ls,
        begin + 1,
        ParserView { ops: Seq::empty(), section: SectionView::Outside, saw_end: false },
    );
}

/// Whether a section changes something: an update has a body line or a destination.
pub open spec fn has_work(op: OpView) -> bool {
    match op {
        OpView::Update { move_to, hunks, .. } => move_to is Some || !all_bare(hunks),
        _ => true,
    }
}

proof fn lemma_first_filled(ls: Seq<Seq<char>>, i: int)
    requires
        0 <= i,
    ensures
        i <= first_filled(ls, i),
    decreases ls.len() - i,
{
    if i < ls.len() && text::trim_view(ls[i]).len() == 0 {
        lemma_first_filled(ls, i + 1);
    }
}

proof fn lemma_envelope_from(ls: Seq<Seq<char>>, i: int, st: ParserView)
    requires
        forall|k: int| 0 <= k < st.ops.len() ==> has_work(#[trigger] st.ops[k]),
    ensures
        envelope_from(ls, i, st) matches Ok(ops) ==> {
            &&& ops.len() > 0
            &&& forall|k: int| 0 <= k < ops.len() ==> has_work(#[trigger] ops[k])
        },
    decreases ls.len() - i,
{
    if i < ls.len() {
        if let Ok(next) = step_view(st, ls[i], (i + 1) as nat) {
            if let Ok(ops) = closed(st) {
                assert forall|k: int| 0 <= k < ops.len() implies has_work(#[trigger] ops[k]) by {
                    if k < st.ops.len() {
                        assert(ops[k] == st.ops[k]);
                    }
                }
                assert forall|k: int| 0 <= k < next.ops.len() implies has_work(
                    #[trigger] next.ops[k],
                ) by {
                    if k < st.ops.len() {
                        assert(next.ops[k] == st.ops[k]);
                    } else if k < ops.len() {
                        assert(next.ops[k] == ops[k]);
                    }
                }
            }
            lemma_envelope_from(ls, i + 1, next);
        }
    }
}

/// A hunk with context is placed only where its block stands nowhere else at or after the
/// point from which it is looked for, unless it is pinned to the end of the file.
pub proof fn hunk_place_is_unique(
    ls: Seq<Seq<char>>,
    cursor: int,
    hunk: UpdateHunkView,
    no: nat,
    other: int,
)
    requires
        diff::pattern_view(hunk.lines).len() > 0,
        !hunk.at_eof,
        hunk_range(ls, cursor, hunk, no) is Ok,
        cursor <= other,
        diff::block_at(ls, diff::pattern_view(hunk.lines), other),
    ensures
        hunk_range(ls, cursor, hunk, no)->Ok_0.0 == other,
{
    let pattern = diff::pattern_view(hunk.lines);
    let last = ls.len() - pattern.len();
    diff::lemma_positions_complete(ls, pattern, cursor, last, other);
    let found = diff::match_positions(ls, pattern, cursor, last);
    let k = choose|k: int| 0 <= k < found.len() && found[k] == other;
    assert(k == 0);
}

/// A hunk replaces the block that it was matched with, and no line outside it.
pub proof fn hunk_changes_only_its_block(
    ls: Seq<Seq<char>>,
    cursor: int,
    hunk: UpdateHunkView,
    no: nat,
)
    requires
        0 <= cursor <= ls.len(),
        hunk_range(ls, cursor, hunk, no) is Ok,
    ensures
        ({
            let (a, b) = hunk_range(ls, cursor, hunk, no)->Ok_0;
            let pattern = diff::pattern_view(hunk.lines);
            let fresh = diff::replacement_view(hunk.lines);
            let out = text::splice_view(ls, a, b, fresh);
            &&& 0 <= a <= b <= ls.len()
            &&& b == a + pattern.len()
            &&& diff::block_at(ls, pattern, a)
            &&& out.take(a) == ls.take(a)
            &&& out.subrange(a, a + fresh.len()) == fresh
            &&& out.skip(a + fresh.len() as int) == ls.skip(b)
        }),
{
    let (a, b) = hunk_range(ls, cursor, hunk, no)->Ok_0;
    let pattern = diff::pattern_view(hunk.lines);
    let fresh = diff::replacement_view(hunk.lines);
    let out = text::splice_view(ls, a, b, fresh);
    if pattern.len() > 0 && !hunk.at_eof {
        let last = ls.len() - pattern.len();
        let found = diff::match_positions(ls, pattern, cursor, last);
        diff::lemma_positions_hold(ls, pattern, cursor, last);
        assert(found[0] == a);
    }
    assert(out.take(a) =~= ls.take(a));
    assert(out.subrange(a, a + fresh.len()) =~= fresh);
    assert(out.skip(a + fresh.len() as int) =~= ls.skip(b));
}

/// A rename without hunks keeps the content, where no line feed of it follows a
/// carriage return.
pub proof fn no_hunks_keep_the_content(content: Seq<char>)
    requires
        text::plain_feeds(content),
    ensures
        updated(content, Seq::empty()) == Ok::<Seq<char>, Seq<char>>(content),
{
    diff::lines_join_back(content);
}

/// An updated text ends with a line feed where the text that it came from does.
pub proof fn updated_keeps_final_feed(content: Seq<char>, hunks: Seq<UpdateHunkView>)
    requires
        text::ends(content, "\n"@),
    ensures
        updated(content, hunks) matches Ok(out) ==> text::ends(out, "\n"@),
{
    if let Ok(out) = updated(content, hunks) {
        reveal_strlit("\n");
        text::lemma_ends_with_feed(out);
    }
}

} // verus!
