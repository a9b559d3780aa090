//! The `spawn_agent` tool: a caller's request goes to the native spawn tool, and the task that
//! it starts is labelled with the role that was resolved.

use vstd::prelude::*;

use crate::agents;
use crate::agents::{
    normalize_spawn_agent_args_with_role, resolve_role, RoleRegistry, RoleTemplate,
};
use crate::codec;
use crate::codec::render_json;
use crate::json;
use crate::json::{opt_text_json, text_json, texts_json, Fields, Json, JsonView};
use crate::tasks;
use crate::tasks::TaskRecord;
use crate::text;
use crate::text::trim;
use crate::tool;
use crate::tool::{plain_failure, ConcurrencyClass, ToolResult, ToolResultView};

verus! {

/// The tool that starts a subagent.
pub struct SpawnAgentTool {
    /// The native spawn tool that requests go to, by name.
    pub delegate: Option<String>,
}

/// Why a task has failed that was registered for want of a native spawn tool.
pub const UNBOUND: &'static str =
    "spawn_agent requires the session runtime to register a native spawn tool delegate";

/// What a call comes to.
pub enum SpawnStep<'a> {
    /// It is answered at once.
    Answer(ToolResult),
    /// A task is to be registered that has failed for want of a native spawn tool.
    RecordFailure,
    /// The request goes to the native spawn tool.
    Delegate { request: Json, role: Option<&'a RoleTemplate> },
}

/// How a task that a request started is labelled.
#[derive(Debug)]
pub struct Projection {
    pub task_id: String,
    pub role: String,
    /// The policy that was resolved for the child.
    pub stamp: Json,
}

/// What a [`Projection`] stands for.
pub struct ProjectionView {
    pub task_id: Seq<char>,
    pub role: Seq<char>,
    pub stamp: JsonView,
}

impl View for Projection {
    type V = ProjectionView;

    open spec fn view(&self) -> ProjectionView {
        ProjectionView { task_id: self.task_id@, role: self.role@, stamp: self.stamp@ }
    }
}

/// The strings among the first `n` values.
pub open spec fn texts_among(v: Seq<JsonView>, n: int) -> Seq<Seq<char>>
    decreases n,
{
    if n <= 0 {
        Seq::empty()
    } else {
        let before = texts_among(v, n - 1);
        match json::text_of(v[n - 1]) {
            Some(s) => before.push(s),
            None => before,
        }
    }
}

/// The tools that a request allows.
pub open spec fn allowed_view(request: JsonView) -> Seq<Seq<char>> {
    match agents::array_member(request, "allowed_tools"@) {
        Some(v) => texts_among(v, v.len() as int),
        None => Seq::empty(),
    }
}

/// The tools that a request allows.
fn allowed_tools(request: &Json) -> (r: Vec<String>)
    ensures
        text::views(r@) == allowed_view(request@),
{
    broadcast use {text::lemma_views_push, json::lemma_array_view};

    let mut out: Vec<String> = Vec::new();
    proof {
        text::lemma_views_empty(out@);
    }
    if let Some(Json::Array(v)) = request.get("allowed_tools") {
        let ghost jv = text::views(v@);
        assert(agents::array_member(request@, "allowed_tools"@) == Some(jv));
        let mut i: usize = 0;
        while i < v.len()
            invariant
                i <= v.len(),
                jv == text::views(v@),
                text::views(out@) == texts_among(jv, i as int),
            decreases v.len() - i,
        {
            assert(jv[i as int] == v@[i as int]@);
            if let Some(s) = v[i].as_text() {
                out.push(s.clone());
            }
            i += 1;
        }
    }
    out
}

/// The manifest that a request refers to, as it is written there.
pub open spec fn manifest_view(request: JsonView) -> Option<Seq<char>> {
    match json::text_member(request, "agent_definition_id"@) {
        Some(s) => if text::trim_view(s).len() > 0 {
            Some(s)
        } else {
            None
        },
        None => None,
    }
}

/// The policy that was resolved for a child. Its tools are enforced, unless a manifest may
/// still take some away; the rest is what the role declares.
pub open spec fn stamp_view(t: RoleTemplate, request: JsonView) -> JsonView {
    let manifest = manifest_view(request);
    let base = seq![
        ("role"@, JsonView::Text(t.name@)),
        ("role_display_name"@, JsonView::Text(t.display_name@)),
        ("allowed_tools"@, json::texts_view(allowed_view(request))),
        (
            "policy_enforcement"@,
            JsonView::Object(
                seq![
                    (
                        "allowed_tools"@,
                        JsonView::Text(
                            if manifest is Some {
                                "subject_to_manifest"@
                            } else {
                                "enforced"@
                            },
                        ),
                    ),
                    ("sandbox_mode"@, JsonView::Text("advisory"@)),
                    ("approval_policy"@, JsonView::Text("advisory"@)),
                    ("model_preference"@, JsonView::Text("advisory"@)),
                ],
            ),
        ),
        ("declared_sandbox_mode"@, JsonView::Text(t.default_sandbox_mode@)),
        ("declared_approval_policy"@, JsonView::Text(t.default_approval_policy@)),
        ("declared_model_preference"@, JsonView::Text(t.model_preference@)),
    ];
    match manifest {
        Some(id) => JsonView::Object(base.push(("agent_definition_id"@, JsonView::Text(id)))),
        None => JsonView::Object(base),
    }
}

/// The policy that was resolved for a child.
fn policy_stamp(t: &RoleTemplate, request: &Json) -> (r: Json)
    ensures
        r@ == stamp_view(*t, request@),
{
    let manifest = match request.get_text("agent_definition_id") {
        Some(s) => {
            let blank = trim(s);
            if blank.as_str().is_empty() {
                None
            } else {
                Some(s.clone())
            }
        },
        None => None,
    };
    let word = if manifest.is_some() {
        "subject_to_manifest"
    } else {
        "enforced"
    };
    let enforcement = Fields::new().with("allowed_tools", text_json(word)).with(
        "sandbox_mode",
        text_json("advisory"),
    ).with("approval_policy", text_json("advisory")).with(
        "model_preference",
        text_json("advisory"),
    );
    assert(enforcement@ =~= seq![
        ("allowed_tools"@, JsonView::Text(word@)),
        ("sandbox_mode"@, JsonView::Text("advisory"@)),
        ("approval_policy"@, JsonView::Text("advisory"@)),
        ("model_preference"@, JsonView::Text("advisory"@)),
    ]);
    let ghost enforced = enforcement@;
    let base = Fields::new().with("role", text_json(&t.name)).with(
        "role_display_name",
        text_json(&t.display_name),
    ).with("allowed_tools", texts_json(&allowed_tools(request))).with(
        "policy_enforcement",
        enforcement.object(),
    ).with("declared_sandbox_mode", text_json(&t.default_sandbox_mode)).with(
        "declared_approval_policy",
        text_json(&t.default_approval_policy),
    ).with("declared_model_preference", text_json(&t.model_preference));
    assert(base@ =~= seq![
        ("role"@, JsonView::Text(t.name@)),
        ("role_display_name"@, JsonView::Text(t.display_name@)),
        ("allowed_tools"@, json::texts_view(allowed_view(request@))),
        ("policy_enforcement"@, JsonView::Object(enforced)),
        ("declared_sandbox_mode"@, JsonView::Text(t.default_sandbox_mode@)),
        ("declared_approval_policy"@, JsonView::Text(t.default_approval_policy@)),
        ("declared_model_preference"@, JsonView::Text(t.model_preference@)),
    ]);
    match manifest {
        Some(id) => base.with("agent_definition_id", text_json(&id)).object(),
        None => base.object(),
    }
}

/// The handle that a caller gets for a started task.
pub open spec fn handle_view(output: Seq<char>, task: Option<TaskRecord>) -> JsonView {
    match task {
        Some(t) => JsonView::Object(
            seq![
                ("status"@, JsonView::Text(tasks::status_view(t.status))),
                ("output"@, JsonView::Text(output)),
                ("agent_id"@, JsonView::Text(t.id@)),
                ("runtime_state"@, JsonView::Text(t.runtime_state@)),
                ("child_session_key"@, json::text_or_null(text::opt(t.child_session_key))),
                ("terminal"@, JsonView::Bool(tasks::is_over(t.status))),
            ],
        ),
        None => JsonView::Object(
            seq![
                ("status"@, JsonView::Text("started"@)),
                ("output"@, JsonView::Text(output)),
            ],
        ),
    }
}

/// The metadata of a request that went to the native spawn tool.
pub open spec fn spawn_metadata(request: JsonView, role: Option<RoleTemplate>) -> JsonView {
    let base = seq![
        ("codex_tool"@, JsonView::Text("spawn_agent"@)),
        ("octos_tool"@, JsonView::Text("spawn"@)),
        ("spawn_args"@, request),
    ];
    match role {
        Some(t) => JsonView::Object(
            base.push(("role"@, JsonView::Text(t.name@))).push(("role_summary"@, t.summary@)),
        ),
        None => JsonView::Object(base),
    }
}

/// The answer to a request that the native spawn tool took.
pub open spec fn spawned_view(
    request: JsonView,
    role: Option<RoleTemplate>,
    output: Seq<char>,
    task: Option<TaskRecord>,
) -> ToolResultView {
    tool::detailed_view(
        codec::json_text(handle_view(output, task)),
        true,
        spawn_metadata(request, role),
    )
}

/// How the task of a request is labelled: only one that was found, under a resolved role.
pub open spec fn projected(
    request: JsonView,
    role: Option<RoleTemplate>,
    task: Option<TaskRecord>,
) -> Option<ProjectionView> {
    match (role, task) {
        (Some(t), Some(k)) => Some(
            ProjectionView { task_id: k.id@, role: t.name@, stamp: stamp_view(t, request) },
        ),
        _ => None,
    }
}

/// The handle that a caller gets for a started task.
fn handle(output: &str, task: Option<&TaskRecord>) -> (r: Json)
    ensures
        r@ == handle_view(output@, tasks::deref_task(task)),
{
    match task {
        Some(t) => {
            let f = Fields::new().with("status", text_json(t.status.as_str())).with(
                "output",
                text_json(output),
            ).with("agent_id", text_json(&t.id)).with(
                "runtime_state",
                text_json(&t.runtime_state),
            ).with("child_session_key", opt_text_json(&t.child_session_key)).with(
                "terminal",
                Json::Bool(t.status.is_terminal()),
            );
            assert(f@ =~= handle_view(output@, Some(*t))->Object_0);
            f.object()
        },
        None => {
            let f = Fields::new().with("status", text_json("started")).with(
                "output",
                text_json(output),
            );
            assert(f@ =~= handle_view(output@, None)->Object_0);
            f.object()
        },
    }
}

/// The answer to a request for which a failed task was registered.
pub open spec fn failed_view(task_id: Seq<char>) -> ToolResultView {
    tool::plain_view(
        codec::json_text(
            JsonView::Object(
                seq![
                    ("agent_id"@, JsonView::Text(task_id)),
                    ("status"@, JsonView::Text("failed"@)),
                    (
                        "message"@,
                        JsonView::Text(
                            "No native Octos spawn tool is bound behind spawn_agent in this ToolRegistry."@,
                        ),
                    ),
                ],
            ),
        ),
        false,
    )
}

/// The answer to a request for which a failed task was registered.
pub fn recorded_failure(task_id: &str) -> (r: ToolResult)
    ensures
        r@ == failed_view(task_id@),
{
    let f = Fields::new().with("agent_id", text_json(task_id)).with(
        "status",
        text_json("failed"),
    ).with(
        "message",
        text_json(
            "No native Octos spawn tool is bound behind spawn_agent in this ToolRegistry.",
        ),
    );
    assert(f@ =~= seq![
        ("agent_id"@, JsonView::Text(task_id@)),
        ("status"@, JsonView::Text("failed"@)),
        (
            "message"@,
            JsonView::Text(
                "No native Octos spawn tool is bound behind spawn_agent in this ToolRegistry."@,
            ),
        ),
    ]);
    plain_failure(render_json(&f.object()))
}

impl SpawnAgentTool {
    /// A tool without a native spawn tool behind it.
    pub fn new() -> (r: Self)
        ensures
            r.delegate is None,
    {
        SpawnAgentTool { delegate: None }
    }

    /// A tool whose requests go to the native spawn tool of the given name.
    pub fn with_delegate(delegate: &str) -> (r: Self)
        ensures
            text::opt(r.delegate) == Some(delegate@),
    {
        SpawnAgentTool { delegate: Some(delegate.to_owned()) }
    }

    /// The name under which a model calls the tool.
    pub fn name(&self) -> (r: &'static str)
        ensures
            r@ == "spawn_agent"@,
    {
        "spawn_agent"
    }

    /// Calls never run side by side.
    pub fn concurrency_class(&self) -> (r: ConcurrencyClass)
        ensures
            r == ConcurrencyClass::Exclusive,
    {
        ConcurrencyClass::Exclusive
    }

    /// What a call with the given arguments comes to.
    pub fn begin<'a>(
        &self,
        registry: &'a RoleRegistry,
        args: &Json,
        has_supervisor: bool,
    ) -> (r: SpawnStep<'a>)
        ensures
            match agents::requested_role(*registry, args@) {
                Err(name) => r matches SpawnStep::Answer(a) && a@ == agents::unknown_role(
                    *registry,
                    name,
                ),
                Ok(role) => if self.delegate is None {
                    if has_supervisor {
                        r is RecordFailure
                    } else {
                        r matches SpawnStep::Answer(a) && a@ == tool::plain_view(
                            "spawn_agent requires a task supervisor and native spawn delegate"@,
                            false,
                        )
                    }
                } else {
                    r matches SpawnStep::Delegate { request, role: found } && agents::deref_role(
                        found,
                    ) == role && agents::is_spawn_request(*registry, args@, role, request@)
                },
            },
    {
        let role = match resolve_role(registry, args) {
            Ok(role) => role,
            Err(answer) => {
                return SpawnStep::Answer(answer);
            },
        };
        if self.delegate.is_none() {
            if has_supervisor {
                SpawnStep::RecordFailure
            } else {
                SpawnStep::Answer(
                    plain_failure(
                        "spawn_agent requires a task supervisor and native spawn delegate"
                            .to_owned(),
                    ),
                )
            }
        } else {
            let request = normalize_spawn_agent_args_with_role(registry, args, role);
            SpawnStep::Delegate { request, role }
        }
    }

    /// The answer to a request, given what the native spawn tool said and which task it
    /// started, and how that task is labelled. A request that was refused is answered as the
    /// native tool did.
    pub fn finish(
        &self,
        request: &Json,
        role: Option<&RoleTemplate>,
        result: ToolResult,
        task: Option<&TaskRecord>,
    ) -> (r: (ToolResult, Option<Projection>))
        ensures
            !result.success ==> r.0 == result && r.1 is None,
            result.success ==> r.0@ == spawned_view(
                request@,
                agents::deref_role(role),
                result.output@,
                tasks::deref_task(task),
            ),
            result.success ==> (match r.1 {
                Some(p) => Some(p@),
                None => None,
            }) == projected(request@, agents::deref_role(role), tasks::deref_task(task)),
    {
        if !result.success {
            return (result, None);
        }
        let payload = handle(&result.output, task);
        let base = Fields::new().with("codex_tool", text_json("spawn_agent")).with(
            "octos_tool",
            text_json("spawn"),
        ).with("spawn_args", request.copy());
        assert(base@ =~= seq![
            ("codex_tool"@, JsonView::Text("spawn_agent"@)),
            ("octos_tool"@, JsonView::Text("spawn"@)),
            ("spawn_args"@, request@),
        ]);
        let meta = match role {
            Some(t) => base.with("role", text_json(&t.name)).with("role_summary", t.summary.copy()),
            None => base,
        };
        let projection = match role {
            Some(t) => match task {
                Some(k) => Some(
                    Projection {
                        task_id: k.id.clone(),
                        role: t.name.clone(),
                        stamp: policy_stamp(t, request),
                    },
                ),
                None => None,
            },
            None => None,
        };
        (
            ToolResult {
                output: render_json(&payload),
                success: true,
                file_modified: None,
                structured_metadata: Some(meta.object()),
            },
            projection,
        )
    }
}

} // verus!
