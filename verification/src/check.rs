//! The check tool: runs a project's own static checker and reports what it found.

use vstd::prelude::*;

use crate::bytes;
use crate::bytes::from_utf8_lossy;
use crate::diagnostics;
use crate::diagnostics::{
    parse_cargo_json, parse_go_vet_output, parse_tsc_output, render_report, tail_chars,
    DiagnosticsView, ParsedDiagnostics,
};
use crate::json;
use crate::json::{text_json, Fields, Json, JsonView};
use crate::laws::checks;
use crate::text;
use crate::text::{cat, cat3, cat4, cat5, dec_string, own, trim};
use crate::tool;
use crate::tool::{detailed, plain_failure, ConcurrencyClass, ToolResult, ToolResultView};

verus! {

/// How long a checker may run, in milliseconds.
pub const DEFAULT_CHECK_TIMEOUT_MS: u64 = 120_000;

/// How many characters of a checker's raw output a report shows.
pub const RAW_TAIL_CHARS: usize = 4000;

/// The kinds of project that have a checker.
#[derive(Debug, Clone, Copy, PartialEq, Eq, Structural)]
pub enum ProjectKind {
    Rust,
    TypeScript,
    Go,
}

/// The program that checks a kind of project.
pub open spec fn binary_of(kind: ProjectKind) -> Seq<char> {
    match kind {
        ProjectKind::Rust => "cargo"@,
        ProjectKind::TypeScript => "tsc"@,
        ProjectKind::Go => "go"@,
    }
}

/// The arguments of the program that checks a kind of project.
pub open spec fn args_of(kind: ProjectKind) -> Seq<Seq<char>> {
    match kind {
        ProjectKind::Rust => seq!["check"@, "--message-format=json"@],
        ProjectKind::TypeScript => seq!["--noEmit"@],
        ProjectKind::Go => seq!["vet"@, "./..."@],
    }
}

/// What a check of a kind of project is called.
pub open spec fn label_of(kind: ProjectKind) -> Seq<char> {
    match kind {
        ProjectKind::Rust => "cargo check"@,
        ProjectKind::TypeScript => "tsc --noEmit"@,
        ProjectKind::Go => "go vet"@,
    }
}

impl ProjectKind {
    /// The program that checks such a project.
    pub fn checker_binary(self) -> (r: &'static str)
        ensures
            r@ == binary_of(self),
    {
        match self {
            ProjectKind::Rust => "cargo",
            ProjectKind::TypeScript => "tsc",
            ProjectKind::Go => "go",
        }
    }

    /// The arguments of that program.
    pub fn checker_args(self) -> (r: Vec<String>)
        ensures
            text::views(r@) == args_of(self),
    {
        broadcast use text::lemma_views_push;

        let mut r: Vec<String> = Vec::new();
        proof {
            text::lemma_views_empty(r@);
        }
        match self {
            ProjectKind::Rust => {
                r.push(own("check"));
                r.push(own("--message-format=json"));
            },
            ProjectKind::TypeScript => {
                r.push(own("--noEmit"));
            },
            ProjectKind::Go => {
                r.push(own("vet"));
                r.push(own("./..."));
            },
        }
        assert(text::views(r@) =~= args_of(self));
        r
    }

    /// What the check is called.
    pub fn label(self) -> (r: &'static str)
        ensures
            r@ == label_of(self),
    {
        match self {
            ProjectKind::Rust => "cargo check",
            ProjectKind::TypeScript => "tsc --noEmit",
            ProjectKind::Go => "go vet",
        }
    }
}

/// Which of the files that mark a project a directory holds.
#[derive(Debug, Clone, Copy)]
pub struct Markers {
    pub cargo_toml: bool,
    pub tsconfig_json: bool,
    pub go_mod: bool,
}

/// The kind of project that its marker files stand for: Rust before TypeScript before Go.
pub fn detect_project(markers: Markers) -> (r: Option<ProjectKind>)
    ensures
        r == (if markers.cargo_toml {
            Some(ProjectKind::Rust)
        } else if markers.tsconfig_json {
            Some(ProjectKind::TypeScript)
        } else if markers.go_mod {
            Some(ProjectKind::Go)
        } else {
            None
        }),
{
    if markers.cargo_toml {
        Some(ProjectKind::Rust)
    } else if markers.tsconfig_json {
        Some(ProjectKind::TypeScript)
    } else if markers.go_mod {
        Some(ProjectKind::Go)
    } else {
        None
    }
}

/// What confines the processes of a session.
#[derive(Debug, Clone, Copy, PartialEq, Eq, Structural)]
pub enum Confinement {
    /// Nothing.
    Open,
    /// A sandbox that runs a shell command line.
    Shell,
    /// A sandbox that cannot run a program of the host by its path.
    Foreign,
}

/// Where a checker was found.
#[derive(Debug)]
pub enum Checker {
    /// It is not installed.
    Missing,
    /// At a path that is text.
    At(String),
    /// At a path that is not text, shown like this.
    Unreadable(String),
}

/// How a checker is to be started.
#[derive(Debug)]
pub enum CheckPlan {
    /// As a program with arguments, in a directory.
    Direct { program: String, args: Vec<String>, cwd: String },
    /// As the program that was found, by its path, which is not text, in a directory.
    Found { args: Vec<String>, cwd: String },
    /// As a command line for the sandbox, in a directory.
    Wrapped { command: String, cwd: String },
}

/// What a [`CheckPlan`] stands for.
#[verifier::ext_equal]
pub enum CheckPlanView {
    Direct { program: Seq<char>, args: Seq<Seq<char>>, cwd: Seq<char> },
    Found { args: Seq<Seq<char>>, cwd: Seq<char> },
    Wrapped { command: Seq<char>, cwd: Seq<char> },
}

impl View for CheckPlan {
    type V = CheckPlanView;

    open spec fn view(&self) -> CheckPlanView {
        match self {
            CheckPlan::Direct { program, args, cwd } => CheckPlanView::Direct {
                program: program@,
                args: text::views(args@),
                cwd: cwd@,
            },
            CheckPlan::Found { args, cwd } => CheckPlanView::Found {
                args: text::views(args@),
                cwd: cwd@,
            },
            CheckPlan::Wrapped { command, cwd } => CheckPlanView::Wrapped {
                command: command@,
                cwd: cwd@,
            },
        }
    }
}

/// The command line that `shlex::try_join` makes of words, where it makes one.
pub uninterp spec fn quoted_line(words: Seq<Seq<char>>) -> Option<Seq<char>>;

/// Whether a word holds a character that no command line can carry.
pub open spec fn has_nul(words: Seq<Seq<char>>) -> bool {
    exists|i: int| 0 <= i < words.len() && (#[trigger] words[i]).contains('\0')
}

/// Calls `shlex::try_join`. The line is named: it depends on the words alone. There is one
/// exactly where no word holds a NUL.
#[verifier::external_body]
fn quote_words(words: &Vec<String>) -> (r: Option<String>)
    ensures
        text::opt(r) == quoted_line(text::views(words@)),
        r is None <==> has_nul(text::views(words@)),
{
    shlex::try_join(words.iter().map(|w| w.as_str())).ok()
}

/// A result that only carries an answer.
pub open spec fn answer_view(output: Seq<char>) -> ToolResultView {
    tool::plain_view(output, true)
}

fn answer(output: String) -> (r: ToolResult)
    ensures
        r@ == answer_view(output@),
{
    ToolResult { output, success: true, file_modified: None, structured_metadata: None }
}

/// Runs a project's own static checker.
#[derive(Debug)]
pub struct CheckTool {
    /// The workspace.
    pub working_dir: String,
    /// How long a checker may run, in milliseconds.
    pub timeout_ms: u64,
    /// What confines it.
    pub sandbox: Confinement,
}

/// What came of looking up the directory that a check is limited to.
#[derive(Debug)]
pub enum ScopeFacts {
    /// It lies outside the workspace, or cannot be resolved, for this reason.
    Refused(String),
    /// It is this directory.
    Directory(String),
    /// It is no directory.
    Other,
}

/// The directory that a check runs in, or the answer that there is none.
pub open spec fn scope_view(
    working_dir: Seq<char>,
    path: Option<(Seq<char>, ScopeFacts)>,
) -> Result<Seq<char>, ToolResultView> {
    match path {
        None => Ok(working_dir),
        Some((path, facts)) => match facts {
            ScopeFacts::Refused(reason) => Err(
                tool::plain_view("check error: "@ + reason@, false),
            ),
            ScopeFacts::Directory(dir) => Ok(dir@),
            ScopeFacts::Other => Err(
                tool::plain_view(
                    "check error: '"@ + path
                        + "' is not a directory (pass a directory to scope the check, or omit 'path' for the workspace root)"@,
                    false,
                ),
            ),
        },
    }
}

/// How a check is started in `dir`, or the answer that it is not. A checker that is missing,
/// or that the sandbox cannot run, is an answer and no failure; under a sandbox nothing is
/// started outside it.
pub open spec fn plan_view(
    sandbox: Confinement,
    dir: Seq<char>,
    kind: Option<ProjectKind>,
    checker: Checker,
) -> Result<CheckPlanView, ToolResultView> {
    match kind {
        None => Err(
            answer_view(
                "no supported project detected at "@ + dir
                    + " (looked for Cargo.toml, tsconfig.json, go.mod)"@,
            ),
        ),
        Some(kind) => match checker {
            Checker::Missing => Err(
                answer_view(
                    "checker not installed: "@ + binary_of(kind) + " (needed for `"@ + label_of(
                        kind,
                    ) + "`); static check skipped"@,
                ),
            ),
            Checker::At(path) => match sandbox {
                Confinement::Open => Ok(
                    CheckPlanView::Direct { program: path@, args: args_of(kind), cwd: dir },
                ),
                Confinement::Foreign => Err(unsupported(kind)),
                Confinement::Shell => match quoted_line(seq![path@] + args_of(kind)) {
                    Some(command) => Ok(CheckPlanView::Wrapped { command, cwd: dir }),
                    None => Err(
                        tool::plain_view(
                            "check error: checker path contains a NUL byte: "@ + path@,
                            false,
                        ),
                    ),
                },
            },
            Checker::Unreadable(shown) => match sandbox {
                Confinement::Open => Ok(CheckPlanView::Found { args: args_of(kind), cwd: dir }),
                Confinement::Foreign => Err(unsupported(kind)),
                Confinement::Shell => Err(
                    tool::plain_view(
                        "check error: checker path is not valid UTF-8: "@ + shown@,
                        false,
                    ),
                ),
            },
        },
    }
}

/// The answer that the sandbox cannot run the checker.
pub open spec fn unsupported(kind: ProjectKind) -> ToolResultView {
    answer_view(
        "check skipped: `"@ + label_of(kind)
            + "` is not supported under the active sandbox backend (Windows/Docker); run the checker via the shell tool instead"@,
    )
}

fn skip_unsupported(kind: ProjectKind) -> (r: ToolResult)
    ensures
        r@ == unsupported(kind),
{
    answer(
        cat3(
            "check skipped: `",
            kind.label(),
            "` is not supported under the active sandbox backend (Windows/Docker); run the checker via the shell tool instead",
        ),
    )
}

/// What a checker's output holds.
pub open spec fn found_by(kind: ProjectKind, stdout: Seq<char>, stderr: Seq<char>) -> DiagnosticsView {
    match kind {
        ProjectKind::Rust => diagnostics::gathered_from(
            stdout,
            |l: Seq<char>| diagnostics::cargo_line(l),
        ),
        ProjectKind::TypeScript => diagnostics::gathered_from(
            stdout,
            |l: Seq<char>| diagnostics::tsc_line(text::trim_end_view(l)),
        ),
        ProjectKind::Go => diagnostics::gathered_from(
            stderr,
            |l: Seq<char>| diagnostics::vet_line(text::trim_end_view(l)),
        ),
    }
}

/// The raw output that a report falls back on.
pub open spec fn raw_of(stdout: Seq<char>, stderr: Seq<char>) -> Seq<char> {
    if text::trim_view(stderr).len() == 0 {
        stdout
    } else {
        stderr
    }
}

/// What is recorded of a check that ran.
pub open spec fn validation_view(errors: int, warnings: int) -> JsonView {
    JsonView::Object(
        seq![
            (
                "validation"@,
                JsonView::Object(
                    seq![
                        ("schema"@, JsonView::Text("octos.validation.v1"@)),
                        ("adapter"@, JsonView::Text("check"@)),
                        ("ran"@, JsonView::Bool(true)),
                        ("errors"@, JsonView::Int(errors)),
                        ("warnings"@, JsonView::Int(warnings)),
                    ],
                ),
            ),
        ],
    )
}

/// The result of a check whose diagnostics are known. That a check ran is recorded only where
/// its outcome can be trusted: the checker succeeded, or it reported an error.
pub open spec fn outcome_view(
    kind: ProjectKind,
    d: DiagnosticsView,
    exit_code: Option<i32>,
    raw: Seq<char>,
) -> ToolResultView {
    let report = diagnostics::report_view(
        label_of(kind),
        d,
        exit_code,
        Some(diagnostics::last_chars(raw, RAW_TAIL_CHARS as nat)),
    );
    if exit_code == Some(0i32) || d.errors > 0 {
        tool::detailed_view(report, true, validation_view(d.errors, d.warnings))
    } else {
        answer_view(report)
    }
}

/// The result of a check.
pub open spec fn finished_view(
    kind: ProjectKind,
    stdout: Seq<u8>,
    stderr: Seq<u8>,
    exit_code: Option<i32>,
) -> ToolResultView {
    let out = bytes::lossy(stdout);
    let err = bytes::lossy(stderr);
    outcome_view(kind, found_by(kind, out, err), exit_code, raw_of(out, err))
}

fn record(errors: usize, warnings: usize) -> (r: Json)
    ensures
        r@ == validation_view(errors as int, warnings as int),
{
    let inner = Fields::new().with("schema", text_json("octos.validation.v1")).with(
        "adapter",
        text_json("check"),
    ).with("ran", Json::Bool(true)).with("errors", Json::Unsigned(errors as u64)).with(
        "warnings",
        Json::Unsigned(warnings as u64),
    );
    let ghost want = seq![
        ("schema"@, JsonView::Text("octos.validation.v1"@)),
        ("adapter"@, JsonView::Text("check"@)),
        ("ran"@, JsonView::Bool(true)),
        ("errors"@, JsonView::Int(errors as int)),
        ("warnings"@, JsonView::Int(warnings as int)),
    ];
    assert(inner@ =~= want);
    let outer = Fields::new().with("validation", inner.object());
    assert(outer@ =~= seq![("validation"@, JsonView::Object(want))]);
    outer.object()
}

/// The result of a check whose diagnostics are known.
pub fn outcome(
    kind: ProjectKind,
    diags: &ParsedDiagnostics,
    exit_code: Option<i32>,
    raw: &str,
) -> (r: ToolResult)
    ensures
        r@ == outcome_view(kind, diags@, exit_code, raw@),
{
    let tail = tail_chars(raw, RAW_TAIL_CHARS);
    let report = render_report(kind.label(), diags, exit_code, Some(tail.as_str()));
    if exit_code == Some(0i32) || diags.errors > 0 {
        detailed(report, true, record(diags.errors, diags.warnings))
    } else {
        answer(report)
    }
}

impl CheckTool {
    /// A tool for a workspace, with the usual time limit and nothing that confines it.
    pub fn new(cwd: &str) -> (r: Self)
        ensures
            r.working_dir@ == cwd@,
            r.timeout_ms == DEFAULT_CHECK_TIMEOUT_MS,
            r.sandbox == Confinement::Open,
    {
        let working_dir = own(cwd);
        CheckTool {
            working_dir,
            timeout_ms: DEFAULT_CHECK_TIMEOUT_MS,
            sandbox: Confinement::Open,
        }
    }

    /// Sets the time limit.
    pub fn with_timeout(self, timeout_ms: u64) -> (r: Self)
        ensures
            r == (CheckTool { timeout_ms, ..self }),
    {
        CheckTool { timeout_ms, ..self }
    }

    /// Sets what confines the checker.
    pub fn with_shared_sandbox(self, sandbox: Confinement) -> (r: Self)
        ensures
            r == (CheckTool { sandbox, ..self }),
    {
        CheckTool { sandbox, ..self }
    }

    /// The tool's name.
    pub fn name(&self) -> (r: &'static str)
        ensures
            r@ == "check"@,
    {
        "check"
    }

    /// Checkers write to the project, so no two calls run side by side.
    pub fn concurrency_class(&self) -> (r: ConcurrencyClass)
        ensures
            r == ConcurrencyClass::Exclusive,
    {
        ConcurrencyClass::Exclusive
    }

    /// The directory that a check runs in, given what came of looking up the one asked for.
    pub fn scope(&self, path: Option<(String, ScopeFacts)>) -> (r: Result<String, ToolResult>)
        ensures
            (match r {
                Ok(dir) => Ok(dir@),
                Err(e) => Err(e@),
            }) == scope_view(
                self.working_dir@,
                match path {
                    Some((p, f)) => Some((p@, f)),
                    None => None,
                },
            ),
    {
        match path {
            None => {
                let dir = own(&self.working_dir);
                Ok(dir)
            },
            Some((path, ScopeFacts::Refused(reason))) => Err(
                plain_failure(cat("check error: ", &reason)),
            ),
            Some((path, ScopeFacts::Directory(dir))) => Ok(dir),
            Some((path, ScopeFacts::Other)) => Err(
                plain_failure(
                    cat3(
                        "check error: '",
                        &path,
                        "' is not a directory (pass a directory to scope the check, or omit 'path' for the workspace root)",
                    ),
                ),
            ),
        }
    }

    /// How a check is started in a directory, or the answer that it is not.
    pub fn plan(&self, dir: &str, kind: Option<ProjectKind>, checker: Checker) -> (r: Result<
        CheckPlan,
        ToolResult,
    >)
        ensures
            (match r {
                Ok(plan) => Ok(plan@),
                Err(e) => Err(e@),
            }) == plan_view(self.sandbox, dir@, kind, checker),
    {
        broadcast use text::lemma_views_push;

        let kind = match kind {
            Some(kind) => kind,
            None => {
                return Err(
                    answer(
                        cat3(
                            "no supported project detected at ",
                            dir,
                            " (looked for Cargo.toml, tsconfig.json, go.mod)",
                        ),
                    ),
                );
            },
        };
        let cwd = own(dir);
        match checker {
            Checker::Missing => Err(
                answer(
                    cat5(
                        "checker not installed: ",
                        kind.checker_binary(),
                        " (needed for `",
                        kind.label(),
                        "`); static check skipped",
                    ),
                ),
            ),
            Checker::At(path) => match self.sandbox {
                Confinement::Open => Ok(
                    CheckPlan::Direct { program: path, args: kind.checker_args(), cwd },
                ),
                Confinement::Foreign => Err(skip_unsupported(kind)),
                Confinement::Shell => {
                    let args = kind.checker_args();
                    let first = own(&path);
                    let words = prepend(first, args);
                    match quote_words(&words) {
                        Some(command) => Ok(CheckPlan::Wrapped { command, cwd }),
                        None => Err(
                            plain_failure(
                                cat("check error: checker path contains a NUL byte: ", &path),
                            ),
                        ),
                    }
                },
            },
            Checker::Unreadable(shown) => match self.sandbox {
                Confinement::Open => Ok(CheckPlan::Found { args: kind.checker_args(), cwd }),
                Confinement::Foreign => Err(skip_unsupported(kind)),
                Confinement::Shell => Err(
                    plain_failure(cat("check error: checker path is not valid UTF-8: ", &shown)),
                ),
            },
        }
    }

    /// The failure of a checker that did not start.
    pub fn spawn_failure(kind: ProjectKind, program: &str, error: &str) -> (r: ToolResult)
        ensures
            r@ == tool::plain_view(
                "failed to run "@ + label_of(kind) + " ("@ + program@ + ("): "@ + error@),
                false,
            ),
    {
        plain_failure(cat5("failed to run ", kind.label(), " (", program, &cat("): ", error)))
    }

    /// The failure of a checker whose output could not be read.
    pub fn wait_failure(kind: ProjectKind, error: &str) -> (r: ToolResult)
        ensures
            r@ == tool::plain_view("failed to run "@ + label_of(kind) + ": "@ + error@, false),
    {
        plain_failure(cat4("failed to run ", kind.label(), ": ", error))
    }

    /// The failure of a checker that ran out of time.
    pub fn timed_out(&self, kind: ProjectKind) -> (r: ToolResult)
        ensures
            r@ == tool::plain_view(
                label_of(kind) + " timed out after "@ + text::dec((self.timeout_ms / 1000) as nat)
                    + "s"@,
                false,
            ),
    {
        plain_failure(
            cat4(
                kind.label(),
                " timed out after ",
                &dec_string((self.timeout_ms / 1000) as u128),
                "s",
            ),
        )
    }

    /// The result of a checker that ran.
    pub fn finish(
        &self,
        kind: ProjectKind,
        stdout: &[u8],
        stderr: &[u8],
        exit_code: Option<i32>,
    ) -> (r: ToolResult)
        ensures
            r@ == finished_view(kind, stdout@, stderr@, exit_code),
            r@.success,
            kind == ProjectKind::Go && (exists|i: int|
                0 <= i < text::lines_view(bytes::lossy(stderr@)).len() && checks::is_vetted(
                    text::trim_end_view(#[trigger] text::lines_view(bytes::lossy(stderr@))[i]),
                )) ==> exists|errors: int| errors > 0 && #[trigger] checks::records(
                r@.structured_metadata,
                errors,
                0,
            ),
    {
        proof {
            let ls = text::lines_view(bytes::lossy(stderr@));
            if kind == ProjectKind::Go && exists|i: int|
                0 <= i < ls.len() && checks::is_vetted(text::trim_end_view(#[trigger] ls[i])) {
                let i = choose|i: int|
                    0 <= i < ls.len() && checks::is_vetted(text::trim_end_view(#[trigger] ls[i]));
                checks::vet_findings_are_reported(stdout@, stderr@, exit_code, i);
            }
        }
        let out = from_utf8_lossy(stdout);
        let err = from_utf8_lossy(stderr);
        let diags = match kind {
            ProjectKind::Rust => parse_cargo_json(&out),
            ProjectKind::TypeScript => parse_tsc_output(&out),
            ProjectKind::Go => parse_go_vet_output(&err),
        };
        if trim(&err).as_str().is_empty() {
            outcome(kind, &diags, exit_code, &out)
        } else {
            outcome(kind, &diags, exit_code, &err)
        }
    }
}

/// A list with a first word.
fn prepend(first: String, rest: Vec<String>) -> (r: Vec<String>)
    ensures
        text::views(r@) == seq![first@] + text::views(rest@),
{
    let mut r: Vec<String> = Vec::new();
    r.push(first);
    let n: usize = rest.len();
    crate::text::push_range(&mut r, &rest, 0, n);
    assert(r@ =~= seq![first] + rest@);
    assert(text::views(r@) =~= seq![first@] + text::views(rest@));
    r
}

/// Under a sandbox no checker is started as a plain program.
pub proof fn sandboxed_checks_never_run_bare(
    sandbox: Confinement,
    dir: Seq<char>,
    kind: Option<ProjectKind>,
    checker: Checker,
)
    requires
        sandbox != Confinement::Open,
    ensures
        plan_view(sandbox, dir, kind, checker) matches Ok(plan) ==> plan is Wrapped,
{
}

/// A missing checker, a directory without a project and a sandbox that cannot run the checker
/// are answers, not failures.
pub proof fn skipped_checks_are_answers(
    sandbox: Confinement,
    dir: Seq<char>,
    kind: Option<ProjectKind>,
    checker: Checker,
)
    requires
        kind is None || checker is Missing || sandbox == Confinement::Foreign,
    ensures
        plan_view(sandbox, dir, kind, checker) matches Err(r) && r.success,
{
}

/// A check that ran is an answer, whatever it found; that it ran is recorded exactly where the
/// checker succeeded or reported an error.
pub proof fn finished_checks_are_answers(
    kind: ProjectKind,
    d: DiagnosticsView,
    exit_code: Option<i32>,
    raw: Seq<char>,
)
    ensures
        outcome_view(kind, d, exit_code, raw).success,
        outcome_view(kind, d, exit_code, raw).structured_metadata is Some <==> (exit_code == Some(
            0i32,
        ) || d.errors > 0),
{
}

} // verus!
