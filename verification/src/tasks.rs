//! Supervised tasks as the agent tools see them, and the tools that inspect, wait for, feed,
//! resume and close them.

use vstd::prelude::*;

use crate::codec;
use crate::codec::render_json;
use crate::json;
use crate::json::{opt_text_json, text_json, texts_json, Fields, Json, JsonView};
use crate::text;
use crate::text::{cat, cat4, list_has};
use crate::tool;
use crate::tool::{detailed, plain_failure, ToolResult, ToolResultView};

verus! {

/// How far a task has come.
#[derive(Debug, Clone, Copy, PartialEq, Eq, Structural)]
pub enum TaskStatus {
    Spawned,
    Running,
    Completed,
    Failed,
    Cancelled,
}

/// The name of a status.
pub open spec fn status_view(s: TaskStatus) -> Seq<char> {
    match s {
        TaskStatus::Spawned => "spawned"@,
        TaskStatus::Running => "running"@,
        TaskStatus::Completed => "completed"@,
        TaskStatus::Failed => "failed"@,
        TaskStatus::Cancelled => "cancelled"@,
    }
}

/// Whether a task with the given status is over.
pub open spec fn is_over(s: TaskStatus) -> bool {
    s == TaskStatus::Completed || s == TaskStatus::Failed || s == TaskStatus::Cancelled
}

impl TaskStatus {
    /// The name of this status.
    pub fn as_str(&self) -> (r: &'static str)
        ensures
            r@ == status_view(*self),
    {
        match self {
            TaskStatus::Spawned => "spawned",
            TaskStatus::Running => "running",
            TaskStatus::Completed => "completed",
            TaskStatus::Failed => "failed",
            TaskStatus::Cancelled => "cancelled",
        }
    }

    /// Whether a task with this status is over.
    pub fn is_terminal(&self) -> (r: bool)
        ensures
            r == is_over(*self),
    {
        *self == TaskStatus::Completed || *self == TaskStatus::Failed || *self
            == TaskStatus::Cancelled
    }
}

/// What is known of a supervised task.
#[derive(Debug)]
pub struct TaskRecord {
    pub id: String,
    pub status: TaskStatus,
    /// The state of the runtime, as it is shown.
    pub runtime_state: String,
    pub child_session_key: Option<String>,
    /// When the task was started, on the supervisor's clock.
    pub started_at: i64,
    pub error: Option<String>,
    pub summary: Option<String>,
    pub output_files: Vec<String>,
    pub tool_input: Option<Json>,
}

/// The newest of the first `n` tasks that is not among `before`: the one that was started
/// last and, of several, that which comes last.
pub open spec fn newest_of(tasks: Seq<TaskRecord>, before: Seq<Seq<char>>, n: int) -> Option<int>
    decreases n,
{
    if n <= 0 {
        None
    } else {
        let best = newest_of(tasks, before, n - 1);
        if before.contains(tasks[n - 1].id@) {
            best
        } else {
            match best {
                Some(b) => if tasks[n - 1].started_at >= tasks[b].started_at {
                    Some(n - 1)
                } else {
                    best
                },
                None => Some(n - 1),
            }
        }
    }
}

/// The newest task that is not among `before`.
pub open spec fn newest(tasks: Seq<TaskRecord>, before: Seq<Seq<char>>) -> Option<TaskRecord> {
    match newest_of(tasks, before, tasks.len() as int) {
        Some(i) => Some(tasks[i]),
        None => None,
    }
}

/// The value behind an optional reference.
pub open spec fn deref_task(o: Option<&TaskRecord>) -> Option<TaskRecord> {
    match o {
        Some(t) => Some(*t),
        None => None,
    }
}

/// The newest task that was not there before.
pub fn newest_spawned_task<'a>(tasks: &'a Vec<TaskRecord>, before: &Vec<String>) -> (r: Option<
    &'a TaskRecord,
>)
    ensures
        deref_task(r) == newest(tasks@, text::views(before@)),
{
    let mut best: Option<usize> = None;
    let mut i: usize = 0;
    let ghost bv = text::views(before@);
    while i < tasks.len()
        invariant
            i <= tasks.len(),
            bv == text::views(before@),
            (match best {
                Some(b) => Some(b as int),
                None => None,
            }) == newest_of(tasks@, bv, i as int),
            best matches Some(b) ==> b < i,
        decreases tasks.len() - i,
    {
        if !list_has(before, &tasks[i].id) {
            match best {
                Some(b) => {
                    if tasks[i].started_at >= tasks[b].started_at {
                        best = Some(i);
                    }
                },
                None => {
                    best = Some(i);
                },
            }
        }
        i += 1;
    }
    match best {
        Some(b) => Some(&tasks[b]),
        None => None,
    }
}

/// The task that is taken for the new one was not there before, and none of the new ones was
/// started later.
pub proof fn newest_is_latest(tasks: Seq<TaskRecord>, before: Seq<Seq<char>>, n: int)
    requires
        0 <= n <= tasks.len(),
    ensures
        newest_of(tasks, before, n) matches Some(b) ==> {
            &&& 0 <= b < n
            &&& !before.contains(tasks[b].id@)
            &&& forall|i: int|
                0 <= i < n && !before.contains((#[trigger] tasks[i]).id@) ==> tasks[i].started_at
                    <= tasks[b].started_at
        },
        newest_of(tasks, before, n) is None ==> forall|i: int|
            0 <= i < n ==> before.contains((#[trigger] tasks[i]).id@),
    decreases n,
{
    if n > 0 {
        newest_is_latest(tasks, before, n - 1);
    }
}

/// The one task that a call is about, given its arguments in the order in which they count.
pub open spec fn sole_target(
    target: Option<Seq<char>>,
    agent_id: Option<Seq<char>>,
    targets: Seq<Seq<char>>,
) -> Option<Seq<char>> {
    match (target, agent_id) {
        (Some(t), _) => Some(t),
        (None, Some(a)) => Some(a),
        (None, None) => if targets.len() > 0 {
            Some(targets[0])
        } else {
            None
        },
    }
}

/// All tasks that a call is about.
pub open spec fn all_targets(
    target: Option<Seq<char>>,
    agent_id: Option<Seq<char>>,
    targets: Seq<Seq<char>>,
) -> Seq<Seq<char>> {
    match (target, agent_id) {
        (Some(t), _) => targets.push(t),
        (None, Some(a)) => targets.push(a),
        (None, None) => targets,
    }
}

/// The arguments by which the agent tools name tasks.
#[derive(Debug)]
pub struct AgentTargets {
    pub target: Option<String>,
    pub agent_id: Option<String>,
    pub targets: Vec<String>,
    pub timeout_ms: Option<u64>,
}

/// The longest that a call waits, in milliseconds, and what it waits by default.
pub const MAX_WAIT_MS: u64 = 3_600_000;

pub const DEFAULT_WAIT_MS: u64 = 30_000;

/// A timeout argument with its default and its bound.
pub open spec fn bounded_timeout(given: Option<u64>, default: u64, max: u64) -> u64 {
    let wanted = match given {
        Some(ms) => ms,
        None => default,
    };
    if wanted <= max {
        wanted
    } else {
        max
    }
}

/// A timeout argument with its default and its bound.
pub fn bound_timeout(given: Option<u64>, default: u64, max: u64) -> (r: u64)
    ensures
        r == bounded_timeout(given, default, max),
{
    let wanted: u64 = match given {
        Some(ms) => ms,
        None => default,
    };
    if wanted <= max {
        wanted
    } else {
        max
    }
}

impl AgentTargets {
    /// The one task that the call is about.
    pub fn sole(&self) -> (r: Option<String>)
        ensures
            text::opt(r) == sole_target(
                text::opt(self.target),
                text::opt(self.agent_id),
                text::views(self.targets@),
            ),
    {
        match &self.target {
            Some(t) => Some(t.clone()),
            None => match &self.agent_id {
                Some(a) => Some(a.clone()),
                None => {
                    if self.targets.len() > 0 {
                        Some(self.targets[0].clone())
                    } else {
                        None
                    }
                },
            },
        }
    }

    /// All tasks that the call is about.
    pub fn all(self) -> (r: Vec<String>)
        ensures
            text::views(r@) == all_targets(
                text::opt(self.target),
                text::opt(self.agent_id),
                text::views(self.targets@),
            ),
    {
        broadcast use text::lemma_views_push;

        let mut targets = self.targets;
        match self.target {
            Some(t) => {
                targets.push(t);
            },
            None => {
                if let Some(a) = self.agent_id {
                    targets.push(a);
                }
            },
        }
        targets
    }

    /// How long the call waits, in milliseconds.
    pub fn wait_ms(&self) -> (r: u64)
        ensures
            r == bounded_timeout(self.timeout_ms, DEFAULT_WAIT_MS, MAX_WAIT_MS),
    {
        bound_timeout(self.timeout_ms, DEFAULT_WAIT_MS, MAX_WAIT_MS)
    }
}

/// The entry for a task in a list of statuses.
pub open spec fn status_entry(id: Seq<char>, task: Option<TaskRecord>) -> JsonView {
    match task {
        Some(t) => JsonView::Object(
            seq![
                ("agent_id"@, JsonView::Text(id)),
                ("status"@, JsonView::Text(status_view(t.status))),
                ("runtime_state"@, JsonView::Text(t.runtime_state@)),
                ("terminal"@, JsonView::Bool(is_over(t.status))),
                ("error"@, json::text_or_null(text::opt(t.error))),
                ("output_files"@, json::texts_view(text::views(t.output_files@))),
                ("child_session_key"@, json::text_or_null(text::opt(t.child_session_key))),
            ],
        ),
        None => JsonView::Object(
            seq![
                ("agent_id"@, JsonView::Text(id)),
                ("status"@, JsonView::Text("unknown"@)),
                ("terminal"@, JsonView::Bool(true)),
            ],
        ),
    }
}

/// Whether a task is over; one that is not known is.
pub open spec fn settled(task: Option<TaskRecord>) -> bool {
    match task {
        Some(t) => is_over(t.status),
        None => true,
    }
}

/// The entry for a task in a list of statuses.
fn describe_status(id: &str, task: &Option<TaskRecord>) -> (r: Json)
    ensures
        r@ == status_entry(id@, *task),
{
    match task {
        Some(t) => {
            let f = Fields::new().with("agent_id", text_json(id)).with(
                "status",
                text_json(t.status.as_str()),
            ).with("runtime_state", text_json(&t.runtime_state)).with(
                "terminal",
                Json::Bool(t.status.is_terminal()),
            ).with("error", opt_text_json(&t.error)).with(
                "output_files",
                texts_json(&t.output_files),
            ).with("child_session_key", opt_text_json(&t.child_session_key));
            assert(f@ =~= status_entry(id@, *task)->Object_0);
            f.object()
        },
        None => {
            let f = Fields::new().with("agent_id", text_json(id)).with(
                "status",
                text_json("unknown"),
            ).with("terminal", Json::Bool(true));
            assert(f@ =~= status_entry(id@, *task)->Object_0);
            f.object()
        },
    }
}

/// The statuses of the tasks that a call waits for.
pub open spec fn statuses_view(targets: Seq<Seq<char>>, found: Seq<Option<TaskRecord>>) -> Seq<
    JsonView,
> {
    Seq::new(targets.len(), |i: int| status_entry(targets[i], found[i]))
}

/// Whether all tasks that a call waits for are over.
pub open spec fn all_settled(found: Seq<Option<TaskRecord>>) -> bool {
    forall|i: int| 0 <= i < found.len() ==> settled(#[trigger] found[i])
}

/// The statuses of the tasks that a call waits for, and whether all of them are over.
pub fn collect_agent_statuses(targets: &Vec<String>, found: &Vec<Option<TaskRecord>>) -> (r: (
    Vec<Json>,
    bool,
))
    requires
        found.len() == targets.len(),
    ensures
        text::views(r.0@) == statuses_view(text::views(targets@), found@),
        r.1 == all_settled(found@),
{
    let mut out: Vec<Json> = Vec::new();
    let mut all = true;
    let mut i: usize = 0;
    while i < targets.len()
        invariant
            i <= targets.len(),
            found.len() == targets.len(),
            out.len() == i,
            forall|k: int|
                0 <= k < i ==> #[trigger] out@[k]@ == status_entry(targets@[k]@, found@[k]),
            all == (forall|k: int| 0 <= k < i ==> settled(#[trigger] found@[k])),
        decreases targets.len() - i,
    {
        out.push(describe_status(&targets[i], &found[i]));
        let over = match &found[i] {
            Some(t) => t.status.is_terminal(),
            None => true,
        };
        assert(over == settled(found@[i as int]));
        all = all && over;
        i += 1;
    }
    assert(text::views(out@) =~= statuses_view(text::views(targets@), found@));
    (out, all)
}

/// The answer to a call that waited.
pub open spec fn waited_view(targets: Seq<Seq<char>>, found: Seq<Option<TaskRecord>>) -> Seq<char> {
    codec::json_text(
        JsonView::Object(
            seq![("agents"@, JsonView::Array(statuses_view(targets, found)))],
        ),
    )
}

/// Whether a waiting call answers now, and with what: once all its tasks are over or its time
/// is.
pub fn wait_step(
    targets: &Vec<String>,
    found: &Vec<Option<TaskRecord>>,
    elapsed_ms: u64,
    wait_ms: u64,
) -> (r: Option<ToolResult>)
    requires
        found.len() == targets.len(),
    ensures
        match r {
            Some(answer) => (all_settled(found@) || elapsed_ms >= wait_ms) && answer@
                == tool::plain_view(waited_view(text::views(targets@), found@), true),
            None => !all_settled(found@) && elapsed_ms < wait_ms,
        },
{
    broadcast use json::lemma_array_view;

    let (statuses, all) = collect_agent_statuses(targets, found);
    if all || elapsed_ms >= wait_ms {
        let f = Fields::new().with("agents", Json::Array(statuses));
        assert(f@ =~= seq![
            (
                "agents"@,
                JsonView::Array(statuses_view(text::views(targets@), found@)),
            ),
        ]);
        Some(
            ToolResult {
                output: render_json(&f.object()),
                success: true,
                file_modified: None,
                structured_metadata: None,
            },
        )
    } else {
        None
    }
}

/// The message of a tool that was called without a task.
pub open spec fn no_target(name: Seq<char>) -> Seq<char> {
    name + " requires agent_id or target"@
}

/// The message of a tool that was called without a supervisor.
pub open spec fn no_supervisor(name: Seq<char>) -> Seq<char> {
    name + " requires a task supervisor in ToolContext"@
}

/// The answer to a call that comes without a supervisor.
pub fn without_supervisor(name: &str) -> (r: ToolResult)
    ensures
        r@ == tool::plain_view(no_supervisor(name@), false),
{
    plain_failure(cat(name, " requires a task supervisor in ToolContext"))
}

/// The task that a call is about, or the answer to a call that names none or comes without a
/// supervisor.
pub fn require_target(name: &str, args: &AgentTargets, has_supervisor: bool) -> (r: Result<
    String,
    ToolResult,
>)
    ensures
        match (
            r,
            sole_target(
                text::opt(args.target),
                text::opt(args.agent_id),
                text::views(args.targets@),
            ),
        ) {
            (Ok(id), Some(t)) => has_supervisor && id@ == t,
            (Err(answer), None) => answer@ == tool::plain_view(no_target(name@), false),
            (Err(answer), Some(_)) => !has_supervisor && answer@ == tool::plain_view(
                no_supervisor(name@),
                false,
            ),
            (Ok(_), None) => false,
        },
{
    match args.sole() {
        Some(id) => {
            if has_supervisor {
                Ok(id)
            } else {
                Err(without_supervisor(name))
            }
        },
        None => Err(plain_failure(cat(name, " requires agent_id or target"))),
    }
}

/// The answer to a call about a task that is not known.
pub open spec fn unknown_agent(id: Seq<char>) -> ToolResultView {
    tool::plain_view("unknown agent: "@ + id, false)
}

/// What is recorded on a task that input was sent to: the input it had first, and what was
/// sent last.
pub open spec fn recorded_view(
    id: Seq<char>,
    request: JsonView,
    now: Seq<char>,
    tool_input: Option<JsonView>,
) -> JsonView {
    let sent = (
        "last_codex_send_input"@,
        JsonView::Object(
            seq![
                ("agent_id"@, JsonView::Text(id)),
                ("request"@, request),
                ("recorded_at"@, JsonView::Text(now)),
            ],
        ),
    );
    match tool_input {
        Some(input) => JsonView::Object(seq![("original_tool_input"@, input), sent]),
        None => JsonView::Object(seq![sent]),
    }
}

/// The answer to input that was recorded.
pub open spec fn sent_view(id: Seq<char>, status: TaskStatus) -> ToolResultView {
    tool::detailed_view(
        codec::json_text(
            JsonView::Object(
                seq![
                    ("ok"@, JsonView::Bool(true)),
                    ("agent_id"@, JsonView::Text(id)),
                    ("status"@, JsonView::Text(status_view(status))),
                    ("recorded"@, JsonView::Bool(true)),
                    ("delivered"@, JsonView::Bool(false)),
                    (
                        "message"@,
                        JsonView::Text(
                            "Input recorded on the supervised task. Live conversational delivery is not attached to this backend."@,
                        ),
                    ),
                ],
            ),
        ),
        true,
        JsonView::Object(
            seq![
                ("codex_tool"@, JsonView::Text("send_input"@)),
                ("agent_id"@, JsonView::Text(id)),
                ("recorded"@, JsonView::Bool(true)),
                ("delivery"@, JsonView::Text("supervisor_metadata"@)),
            ],
        ),
    )
}

/// Records input for a task: what is to be kept on it, and the answer.
pub fn send_input(id: &str, request: &Json, now: &str, task: &Option<TaskRecord>) -> (r: (
    Option<Json>,
    ToolResult,
))
    ensures
        match task {
            None => r.0 is None && r.1@ == unknown_agent(id@),
            Some(t) => {
                &&& r.0 matches Some(kept) && kept@ == recorded_view(
                    id@,
                    request@,
                    now@,
                    match t.tool_input {
                        Some(j) => Some(j@),
                        None => None,
                    },
                )
                &&& r.1@ == sent_view(id@, t.status)
            },
        },
{
    let t = match task {
        Some(t) => t,
        None => {
            return (None, plain_failure(cat("unknown agent: ", id)));
        },
    };
    let sent = Fields::new().with("agent_id", text_json(id)).with("request", request.copy()).with(
        "recorded_at",
        text_json(now),
    );
    assert(sent@ =~= seq![
        ("agent_id"@, JsonView::Text(id@)),
        ("request"@, request@),
        ("recorded_at"@, JsonView::Text(now@)),
    ]);
    let merged = match &t.tool_input {
        Some(input) => Fields::new().with("original_tool_input", input.copy()),
        None => Fields::new(),
    };
    let merged = merged.with("last_codex_send_input", sent.object());
    proof {
        let tool_input = match &t.tool_input {
            Some(j) => Some(j@),
            None => None,
        };
        assert(merged@ =~= recorded_view(id@, request@, now@, tool_input)->Object_0);
    }
    let out = Fields::new().with("ok", Json::Bool(true)).with("agent_id", text_json(id)).with(
        "status",
        text_json(t.status.as_str()),
    ).with("recorded", Json::Bool(true)).with("delivered", Json::Bool(false)).with(
        "message",
        text_json(
            "Input recorded on the supervised task. Live conversational delivery is not attached to this backend.",
        ),
    );
    assert(out@ =~= seq![
        ("ok"@, JsonView::Bool(true)),
        ("agent_id"@, JsonView::Text(id@)),
        ("status"@, JsonView::Text(status_view(t.status))),
        ("recorded"@, JsonView::Bool(true)),
        ("delivered"@, JsonView::Bool(false)),
        (
            "message"@,
            JsonView::Text(
                "Input recorded on the supervised task. Live conversational delivery is not attached to this backend."@,
            ),
        ),
    ]);
    let meta = Fields::new().with("codex_tool", text_json("send_input")).with(
        "agent_id",
        text_json(id),
    ).with("recorded", Json::Bool(true)).with("delivery", text_json("supervisor_metadata"));
    assert(meta@ =~= sent_view(id@, t.status).structured_metadata->0->Object_0);
    (
        Some(merged.object()),
        detailed(render_json(&out.object()), true, meta.object()),
    )
}

/// What came of starting a task again.
#[derive(Debug)]
pub enum Relaunch {
    /// It runs again, under this id.
    Started(String),
    StillActive,
    NotFound,
}

/// The answer to an attempt to resume a task.
pub open spec fn resumed_view(id: Seq<char>, outcome: Relaunch) -> ToolResultView {
    match outcome {
        Relaunch::Started(fresh) => tool::plain_view(
            codec::json_text(
                JsonView::Object(
                    seq![
                        ("agent_id"@, JsonView::Text(id)),
                        ("resumed_agent_id"@, JsonView::Text(fresh@)),
                        ("status"@, JsonView::Text("spawned"@)),
                    ],
                ),
            ),
            true,
        ),
        Relaunch::StillActive => tool::plain_view(
            codec::json_text(
                JsonView::Object(
                    seq![
                        ("agent_id"@, JsonView::Text(id)),
                        ("status"@, JsonView::Text("active"@)),
                        ("message"@, JsonView::Text("agent is already active"@)),
                    ],
                ),
            ),
            true,
        ),
        Relaunch::NotFound => unknown_agent(id),
    }
}

/// A success that only carries a message.
fn plain_success(output: String) -> (r: ToolResult)
    ensures
        r@ == tool::plain_view(output@, true),
{
    ToolResult { output, success: true, file_modified: None, structured_metadata: None }
}

/// The answer to an attempt to resume a task.
pub fn resume_answer(id: &str, outcome: &Relaunch) -> (r: ToolResult)
    ensures
        r@ == resumed_view(id@, *outcome),
{
    match outcome {
        Relaunch::Started(fresh) => {
            let f = Fields::new().with("agent_id", text_json(id)).with(
                "resumed_agent_id",
                text_json(fresh),
            ).with("status", text_json("spawned"));
            assert(f@ =~= seq![
                ("agent_id"@, JsonView::Text(id@)),
                ("resumed_agent_id"@, JsonView::Text(fresh@)),
                ("status"@, JsonView::Text("spawned"@)),
            ]);
            plain_success(render_json(&f.object()))
        },
        Relaunch::StillActive => {
            let f = Fields::new().with("agent_id", text_json(id)).with(
                "status",
                text_json("active"),
            ).with("message", text_json("agent is already active"));
            assert(f@ =~= seq![
                ("agent_id"@, JsonView::Text(id@)),
                ("status"@, JsonView::Text("active"@)),
                ("message"@, JsonView::Text("agent is already active"@)),
            ]);
            plain_success(render_json(&f.object()))
        },
        Relaunch::NotFound => plain_failure(cat("unknown agent: ", id)),
    }
}

/// The answer to a call that closed a task.
pub open spec fn closed_view(id: Seq<char>, status: TaskStatus) -> ToolResultView {
    tool::plain_view(
        codec::json_text(
            JsonView::Object(
                seq![
                    ("agent_id"@, JsonView::Text(id)),
                    ("status"@, JsonView::Text(status_view(status))),
                    ("closed"@, JsonView::Bool(true)),
                ],
            ),
        ),
        true,
    )
}

/// The answer to a call that closed a task.
fn closed_answer(id: &str, status: TaskStatus) -> (r: ToolResult)
    ensures
        r@ == closed_view(id@, status),
{
    let f = Fields::new().with("agent_id", text_json(id)).with(
        "status",
        text_json(status.as_str()),
    ).with("closed", Json::Bool(true));
    assert(f@ =~= seq![
        ("agent_id"@, JsonView::Text(id@)),
        ("status"@, JsonView::Text(status_view(status))),
        ("closed"@, JsonView::Bool(true)),
    ]);
    plain_success(render_json(&f.object()))
}

/// Whether a task that is to be closed must be cancelled; else the answer. A task that is
/// over is closed as it is.
pub fn close_step(id: &str, status: Option<TaskStatus>) -> (r: Option<ToolResult>)
    ensures
        match (r, status) {
            (Some(answer), None) => answer@ == unknown_agent(id@),
            (Some(answer), Some(s)) => is_over(s) && answer@ == closed_view(id@, s),
            (None, Some(s)) => !is_over(s),
            (None, None) => false,
        },
{
    match status {
        None => Some(plain_failure(cat("unknown agent: ", id))),
        Some(s) => {
            if s.is_terminal() {
                Some(closed_answer(id, s))
            } else {
                None
            }
        },
    }
}

/// The answer to a call that cancelled a task, or failed to.
pub fn cancel_answer(id: &str, outcome: &Result<(), String>) -> (r: ToolResult)
    ensures
        r@ == (match outcome {
            Ok(()) => closed_view(id@, TaskStatus::Cancelled),
            Err(e) => tool::plain_view("failed to close agent "@ + id@ + ": "@ + e@, false),
        }),
{
    match outcome {
        Ok(()) => closed_answer(id, TaskStatus::Cancelled),
        Err(e) => plain_failure(cat4("failed to close agent ", id, ": ", e)),
    }
}

/// Records input for a subagent.
#[derive(Debug)]
pub struct SendInputTool;

impl SendInputTool {
    /// The tool's name.
    pub fn name(&self) -> (r: &'static str)
        ensures
            r@ == "send_input"@,
    {
        "send_input"
    }
}

/// Starts a subagent again.
#[derive(Debug)]
pub struct ResumeAgentTool;

impl ResumeAgentTool {
    /// The tool's name.
    pub fn name(&self) -> (r: &'static str)
        ensures
            r@ == "resume_agent"@,
    {
        "resume_agent"
    }
}

/// Waits for subagents.
#[derive(Debug)]
pub struct WaitAgentTool;

impl WaitAgentTool {
    /// The tool's name.
    pub fn name(&self) -> (r: &'static str)
        ensures
            r@ == "wait_agent"@,
    {
        "wait_agent"
    }
}

/// Ends a subagent.
#[derive(Debug)]
pub struct CloseAgentTool;

impl CloseAgentTool {
    /// The tool's name.
    pub fn name(&self) -> (r: &'static str)
        ensures
            r@ == "close_agent"@,
    {
        "close_agent"
    }
}

} // verus!
