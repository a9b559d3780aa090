//! The `delegate` tool: a subagent is started in a role, waited for, and its result returned.

use vstd::prelude::*;

use crate::agents;
use crate::agents::{RoleRegistry, RoleTemplate};
use crate::codec;
use crate::codec::render_json;
use crate::json;
use crate::json::{filled_text, opt_text_json, text_json, texts_json, Fields, Json, JsonView};
use crate::tasks;
use crate::tasks::{bound_timeout, newest_spawned_task, TaskRecord, TaskStatus};
use crate::text;
use crate::text::{cat, cat3, cat4, debug_list, debug_string};
use crate::tool;
use crate::tool::{detailed, ConcurrencyClass, ToolResult, ToolResultView};

verus! {

/// How long the tool waits, in milliseconds: by default, and at most.
pub const DEFAULT_DELEGATE_TIMEOUT_MS: u64 = 300_000;

pub const MAX_DELEGATE_TIMEOUT_MS: u64 = 3_600_000;

/// The tool that starts a subagent and waits for it.
pub struct DelegateAliasTool {
    /// The tool that starts subagents, by name.
    pub spawn_agent: Option<String>,
}

/// A subagent that is about to be started.
#[derive(Debug)]
pub struct DelegateStart {
    /// The canonical name of its role.
    pub role: String,
    pub request: Json,
}

/// The answer to a call that is refused.
pub open spec fn refused(output: Seq<char>, kind: Seq<char>, reason: Seq<char>) -> ToolResultView {
    tool::detailed_view(
        output,
        false,
        JsonView::Object(
            seq![
                ("codex_tool"@, JsonView::Text("delegate"@)),
                ("error_kind"@, JsonView::Text(kind)),
                ("reason"@, JsonView::Text(reason)),
            ],
        ),
    )
}

/// The answer to a call that is refused.
fn refusal(output: &str, kind: &str, reason: &str) -> (r: ToolResult)
    ensures
        r@ == refused(output@, kind@, reason@),
{
    let f = Fields::new().with("codex_tool", text_json("delegate")).with(
        "error_kind",
        text_json(kind),
    ).with("reason", text_json(reason));
    assert(f@ =~= refused(output@, kind@, reason@).structured_metadata->0->Object_0);
    detailed(output.to_owned(), false, f.object())
}

/// The answer to a call whose subagent was not started.
pub open spec fn not_started(output: Seq<char>, reason: Seq<char>, role: Seq<char>) -> ToolResultView {
    tool::detailed_view(
        output,
        false,
        JsonView::Object(
            seq![
                ("codex_tool"@, JsonView::Text("delegate"@)),
                ("error_kind"@, JsonView::Text("coding_tool_missing"@)),
                ("reason"@, JsonView::Text(reason)),
                ("role"@, JsonView::Text(role)),
            ],
        ),
    )
}

/// The answer to a call whose subagent was not started.
fn start_failure(output: String, reason: &str, role: &str) -> (r: ToolResult)
    ensures
        r@ == not_started(output@, reason@, role@),
{
    let f = Fields::new().with("codex_tool", text_json("delegate")).with(
        "error_kind",
        text_json("coding_tool_missing"),
    ).with("reason", text_json(reason)).with("role", text_json(role));
    assert(f@ =~= not_started(output@, reason@, role@).structured_metadata->0->Object_0);
    detailed(output, false, f.object())
}

/// The answer to a call that names an unknown role.
pub open spec fn unknown_role(registry: RoleRegistry, role: Seq<char>) -> ToolResultView {
    let names = agents::role_names(registry.templates@);
    tool::detailed_view(
        "delegate: unknown role "@ + text::debug_text(role) + "; canonical roles: "@
            + text::debug_list_view(names),
        false,
        JsonView::Object(
            seq![
                ("codex_tool"@, JsonView::Text("delegate"@)),
                ("error_kind"@, JsonView::Text("coding_tool_denied"@)),
                ("reason"@, JsonView::Text("unknown_role"@)),
                ("role"@, JsonView::Text(role)),
                ("canonical_roles"@, json::texts_view(names)),
            ],
        ),
    )
}

/// The request by which a subagent is started: the bare task, and the role with its tools.
pub open spec fn start_request(task: Seq<char>, t: RoleTemplate) -> JsonView {
    JsonView::Object(
        seq![
            ("task"@, JsonView::Text(task)),
            ("label"@, JsonView::Text("delegate-"@ + t.name@)),
            ("mode"@, JsonView::Text("background"@)),
            ("role"@, JsonView::Text(t.name@)),
            ("allowed_tools"@, json::texts_view(text::views(t.spawn_tools@))),
        ],
    )
}

/// What a call comes to: the role and the request of a subagent, or the answer to a call that
/// is refused.
pub open spec fn started(
    registry: RoleRegistry,
    role: Option<Seq<char>>,
    task: Option<Seq<char>>,
    has_spawn_agent: bool,
    has_supervisor: bool,
) -> Result<(Seq<char>, JsonView), ToolResultView> {
    match (json::filled(role), json::filled(task)) {
        (None, _) => Err(
            refused("delegate requires `role`"@, "coding_tool_denied"@, "missing_role"@),
        ),
        (Some(_), None) => Err(
            refused("delegate requires `task`"@, "coding_tool_denied"@, "missing_task"@),
        ),
        (Some(role), Some(task)) => match registry.named(role) {
            None => Err(unknown_role(registry, role)),
            Some(t) => if !has_spawn_agent {
                Err(
                    refused(
                        "delegate requires the session runtime to register a spawn_agent delegate"@,
                        "coding_tool_missing"@,
                        "spawn_agent_unbound"@,
                    ),
                )
            } else if !has_supervisor {
                Err(
                    refused(
                        "delegate requires a task supervisor in ToolContext"@,
                        "coding_tool_missing"@,
                        "supervisor_unbound"@,
                    ),
                )
            } else {
                Ok((t.name@, start_request(task, t)))
            },
        },
    }
}

/// Whether a subagent is waited for no longer: it is over, or the time is.
pub open spec fn wait_is_over(snapshot: Option<TaskRecord>, elapsed_ms: u64, timeout_ms: u64) -> bool {
    (snapshot matches Some(t) && tasks::is_over(t.status)) || elapsed_ms >= timeout_ms
}

/// Whether a subagent is waited for no longer.
pub fn stop_waiting(snapshot: &Option<TaskRecord>, elapsed_ms: u64, timeout_ms: u64) -> (r: bool)
    ensures
        r == wait_is_over(*snapshot, elapsed_ms, timeout_ms),
{
    let over = match snapshot {
        Some(t) => t.status.is_terminal(),
        None => false,
    };
    over || elapsed_ms >= timeout_ms
}

/// What a call returns of a subagent as it was seen last.
pub open spec fn result_payload(
    agent_id: Seq<char>,
    role: Seq<char>,
    last: Option<TaskRecord>,
) -> JsonView {
    match last {
        Some(t) => JsonView::Object(
            seq![
                ("agent_id"@, JsonView::Text(agent_id)),
                ("role"@, JsonView::Text(role)),
                ("status"@, JsonView::Text(tasks::status_view(t.status))),
                (
                    "result"@,
                    JsonView::Text(
                        match t.summary {
                            Some(s) => s@,
                            None => Seq::empty(),
                        },
                    ),
                ),
                ("artifacts"@, json::texts_view(text::views(t.output_files@))),
                ("error"@, json::text_or_null(text::opt(t.error))),
                ("terminal"@, JsonView::Bool(tasks::is_over(t.status))),
                ("timed_out"@, JsonView::Bool(!tasks::is_over(t.status))),
                ("child_session_key"@, json::text_or_null(text::opt(t.child_session_key))),
            ],
        ),
        None => JsonView::Object(
            seq![
                ("agent_id"@, JsonView::Text(agent_id)),
                ("role"@, JsonView::Text(role)),
                ("status"@, JsonView::Text("unknown"@)),
                ("result"@, JsonView::Text(Seq::empty())),
                ("artifacts"@, json::texts_view(Seq::empty())),
                (
                    "error"@,
                    JsonView::Text("agent "@ + agent_id + " not found in supervisor"@),
                ),
                ("terminal"@, JsonView::Bool(true)),
                ("timed_out"@, JsonView::Bool(false)),
                ("child_session_key"@, JsonView::Null),
            ],
        ),
    }
}

/// The files that a subagent left.
pub open spec fn artifacts(last: Option<TaskRecord>) -> Seq<Seq<char>> {
    match last {
        Some(t) => text::views(t.output_files@),
        None => Seq::empty(),
    }
}

/// The answer to a call whose subagent was waited for. It is a success only where the
/// subagent completed.
pub open spec fn finished(
    agent_id: Seq<char>,
    role: Seq<char>,
    last: Option<TaskRecord>,
) -> ToolResultView {
    tool::detailed_view(
        codec::json_text(result_payload(agent_id, role, last)),
        last matches Some(t) && t.status == TaskStatus::Completed,
        JsonView::Object(
            seq![
                ("codex_tool"@, JsonView::Text("delegate"@)),
                ("role"@, JsonView::Text(role)),
                ("agent_id"@, JsonView::Text(agent_id)),
                ("artifacts"@, json::texts_view(artifacts(last))),
                ("terminal"@, JsonView::Bool(tasks::settled(last))),
            ],
        ),
    )
}

/// What a call returns of a subagent as it was seen last.
fn payload(agent_id: &str, role: &str, last: &Option<TaskRecord>) -> (r: Json)
    ensures
        r@ == result_payload(agent_id@, role@, *last),
{
    let base = Fields::new().with("agent_id", text_json(agent_id)).with("role", text_json(role));
    match last {
        Some(t) => {
            let result = match &t.summary {
                Some(s) => text_json(s),
                None => Json::Text(String::new()),
            };
            let f = base.with("status", text_json(t.status.as_str())).with("result", result).with(
                "artifacts",
                texts_json(&t.output_files),
            ).with("error", opt_text_json(&t.error)).with(
                "terminal",
                Json::Bool(t.status.is_terminal()),
            ).with("timed_out", Json::Bool(!t.status.is_terminal())).with(
                "child_session_key",
                opt_text_json(&t.child_session_key),
            );
            assert(f@ =~= result_payload(agent_id@, role@, *last)->Object_0);
            f.object()
        },
        None => {
            let none: Vec<String> = Vec::new();
            proof {
                text::lemma_views_empty(none@);
            }
            let f = base.with("status", text_json("unknown")).with(
                "result",
                Json::Text(String::new()),
            ).with("artifacts", texts_json(&none)).with(
                "error",
                Json::Text(cat3("agent ", agent_id, " not found in supervisor")),
            ).with("terminal", Json::Bool(true)).with("timed_out", Json::Bool(false)).with(
                "child_session_key",
                Json::Null,
            );
            assert(f@ =~= result_payload(agent_id@, role@, *last)->Object_0);
            f.object()
        },
    }
}

/// The view of a start or of the answer that stands in its place.
pub open spec fn start_or_answer(r: Result<DelegateStart, ToolResult>) -> Result<
    (Seq<char>, JsonView),
    ToolResultView,
> {
    match r {
        Ok(s) => Ok((s.role@, s.request@)),
        Err(a) => Err(a@),
    }
}

impl DelegateAliasTool {
    /// A tool without one that starts subagents behind it.
    pub fn new() -> (r: Self)
        ensures
            r.spawn_agent is None,
    {
        DelegateAliasTool { spawn_agent: None }
    }

    /// A tool that starts subagents by the tool of the given name.
    pub fn with_spawn_agent(spawn_agent: &str) -> (r: Self)
        ensures
            text::opt(r.spawn_agent) == Some(spawn_agent@),
    {
        DelegateAliasTool { spawn_agent: Some(spawn_agent.to_owned()) }
    }

    /// The name under which a model calls the tool.
    pub fn name(&self) -> (r: &'static str)
        ensures
            r@ == "delegate"@,
    {
        "delegate"
    }

    /// Calls never run side by side.
    pub fn concurrency_class(&self) -> (r: ConcurrencyClass)
        ensures
            r == ConcurrencyClass::Exclusive,
    {
        ConcurrencyClass::Exclusive
    }

    /// What a call with the given arguments comes to.
    pub fn begin(
        &self,
        registry: &RoleRegistry,
        role: Option<&String>,
        task: Option<&String>,
        has_supervisor: bool,
    ) -> (r: Result<DelegateStart, ToolResult>)
        ensures
            start_or_answer(r) == started(
                *registry,
                json::opt_ref(role),
                json::opt_ref(task),
                self.spawn_agent is Some,
                has_supervisor,
            ),
    {
        let role = match filled_text(role) {
            Some(role) => role,
            None => {
                return Err(
                    refusal("delegate requires `role`", "coding_tool_denied", "missing_role"),
                );
            },
        };
        let task = match filled_text(task) {
            Some(task) => task,
            None => {
                return Err(
                    refusal("delegate requires `task`", "coding_tool_denied", "missing_task"),
                );
            },
        };
        let t = match registry.for_name(&role) {
            Some(t) => t,
            None => {
                let names = registry.names();
                assert(text::views(names@).take(names.len() as int) =~= text::views(names@));
                let f = Fields::new().with("codex_tool", text_json("delegate")).with(
                    "error_kind",
                    text_json("coding_tool_denied"),
                ).with("reason", text_json("unknown_role")).with("role", text_json(&role)).with(
                    "canonical_roles",
                    texts_json(&names),
                );
                assert(f@ =~= unknown_role(
                    *registry,
                    role@,
                ).structured_metadata->0->Object_0);
                return Err(
                    detailed(
                        cat4(
                            "delegate: unknown role ",
                            &debug_string(&role),
                            "; canonical roles: ",
                            &debug_list(&names, names.len()),
                        ),
                        false,
                        f.object(),
                    ),
                );
            },
        };
        if self.spawn_agent.is_none() {
            return Err(
                refusal(
                    "delegate requires the session runtime to register a spawn_agent delegate",
                    "coding_tool_missing",
                    "spawn_agent_unbound",
                ),
            );
        }
        if !has_supervisor {
            return Err(
                refusal(
                    "delegate requires a task supervisor in ToolContext",
                    "coding_tool_missing",
                    "supervisor_unbound",
                ),
            );
        }
        let f = Fields::new().with("task", text_json(&task)).with(
            "label",
            Json::Text(cat("delegate-", &t.name)),
        ).with("mode", text_json("background")).with("role", text_json(&t.name)).with(
            "allowed_tools",
            texts_json(&t.spawn_tools),
        );
        assert(f@ =~= start_request(task@, *t)->Object_0);
        Ok(DelegateStart { role: t.name.clone(), request: f.object() })
    }

    /// How long a call waits, in milliseconds.
    pub fn timeout_ms(&self, given: Option<u64>) -> (r: u64)
        ensures
            r == tasks::bounded_timeout(
                given,
                DEFAULT_DELEGATE_TIMEOUT_MS,
                MAX_DELEGATE_TIMEOUT_MS,
            ),
    {
        bound_timeout(given, DEFAULT_DELEGATE_TIMEOUT_MS, MAX_DELEGATE_TIMEOUT_MS)
    }
}

impl DelegateStart {
    /// The task that was started, given what starting it gave, the tasks that there are now,
    /// and the ids of those that there were before; or the answer where none was started.
    pub fn started_task(
        &self,
        result: &ToolResult,
        tasks: &Vec<TaskRecord>,
        before: &Vec<String>,
    ) -> (r: Result<String, ToolResult>)
        ensures
            match r {
                Ok(id) => result.success && tasks::newest(tasks@, text::views(before@)) is Some
                    && tasks::newest(tasks@, text::views(before@))->0.id@ == id@,
                Err(answer) => if !result.success {
                    answer@ == not_started(
                        "delegate: spawn_agent failed: "@ + result.output@,
                        "spawn_agent_failed"@,
                        self.role@,
                    )
                } else {
                    tasks::newest(tasks@, text::views(before@)) is None && answer@ == not_started(
                        "delegate: spawn_agent did not register a new task with the supervisor"@,
                        "spawn_agent_no_task"@,
                        self.role@,
                    )
                },
            },
    {
        if !result.success {
            return Err(
                start_failure(
                    cat("delegate: spawn_agent failed: ", &result.output),
                    "spawn_agent_failed",
                    &self.role,
                ),
            );
        }
        match newest_spawned_task(tasks, before) {
            Some(t) => Ok(t.id.clone()),
            None => Err(
                start_failure(
                    "delegate: spawn_agent did not register a new task with the supervisor"
                        .to_owned(),
                    "spawn_agent_no_task",
                    &self.role,
                ),
            ),
        }
    }

    /// The answer to the call, given the subagent as it was seen last.
    pub fn finish(&self, agent_id: &str, last: &Option<TaskRecord>) -> (r: ToolResult)
        ensures
            r@ == finished(agent_id@, self.role@, *last),
    {
        let none: Vec<String> = Vec::new();
        proof {
            text::lemma_views_empty(none@);
        }
        let (files, over, success) = match last {
            Some(t) => (
                texts_json(&t.output_files),
                t.status.is_terminal(),
                t.status == TaskStatus::Completed,
            ),
            None => (texts_json(&none), true, false),
        };
        let meta = Fields::new().with("codex_tool", text_json("delegate")).with(
            "role",
            text_json(&self.role),
        ).with("agent_id", text_json(agent_id)).with("artifacts", files).with(
            "terminal",
            Json::Bool(over),
        );
        assert(meta@ =~= finished(
            agent_id@,
            self.role@,
            *last,
        ).structured_metadata->0->Object_0);
        detailed(render_json(&payload(agent_id, &self.role, last)), success, meta.object())
    }
}

/// A call starts a subagent only under the exact name of a known role, and the request carries
/// that role, the tools of the role, and the bare task.
pub proof fn delegate_starts_known_roles_only(
    registry: RoleRegistry,
    role: Option<Seq<char>>,
    task: Option<Seq<char>>,
    has_spawn_agent: bool,
    has_supervisor: bool,
)
    ensures
        started(registry, role, task, has_spawn_agent, has_supervisor) matches Ok((name, request))
            ==> {
            &&& registry.named(json::filled(role)->0) is Some
            &&& name == registry.named(json::filled(role)->0)->0.name@
            &&& request == start_request(
                json::filled(task)->0,
                registry.named(json::filled(role)->0)->0,
            )
        },
{
}

} // verus!
