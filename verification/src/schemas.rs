//! What the tools take: the JSON schemas of their arguments.

use vstd::prelude::*;

use crate::agents;
use crate::agents::RoleRegistry;
use crate::apply_patch::ApplyPatchTool;
use crate::catalog::{ToolSearchTool, ToolSuggestTool, MAX_LIMIT};
use crate::check::CheckTool;
use crate::command::{
    BashTool, ExecCommandTool, WriteStdinTool, MAX_BASH_TIMEOUT_SECS, MAX_EXEC_TIMEOUT_SECS,
};
use crate::delegate::{DelegateAliasTool, MAX_DELEGATE_TIMEOUT_MS};
use crate::diff_edit::DiffEditTool;
use crate::image::{ImageGenerationTool, ViewImageTool};
use crate::json;
use crate::json::{text_json, texts_json, Fields, Json, JsonView};
use crate::plan::{RequestUserInputTool, UpdatePlanTool};
use crate::spawn_agent::SpawnAgentTool;
use crate::tasks::{CloseAgentTool, ResumeAgentTool, SendInputTool, WaitAgentTool};
use crate::text;
use crate::text::{cat, cat3, join, own, push_range};

verus! {

/// What an argument may be.
#[derive(Debug)]
pub enum Kind {
    /// A text.
    Text,
    /// A truth value.
    Flag,
    /// A whole number, at least `min` and, where it is given, at most `max`.
    Integer { min: u64, max: Option<u64> },
    /// One of these texts.
    OneOf(Vec<String>),
    /// A list of texts.
    TextList,
    /// A list of pieces of content.
    ContentList,
}

/// What a [`Kind`] stands for.
#[verifier::ext_equal]
pub enum KindView {
    Text,
    Flag,
    Integer { min: int, max: Option<int> },
    OneOf(Seq<Seq<char>>),
    TextList,
    ContentList,
}

impl View for Kind {
    type V = KindView;

    open spec fn view(&self) -> KindView {
        match self {
            Kind::Text => KindView::Text,
            Kind::Flag => KindView::Flag,
            Kind::Integer { min, max } => KindView::Integer {
                min: *min as int,
                max: match max {
                    Some(m) => Some(*m as int),
                    None => None,
                },
            },
            Kind::OneOf(v) => KindView::OneOf(text::views(v@)),
            Kind::TextList => KindView::TextList,
            Kind::ContentList => KindView::ContentList,
        }
    }
}

/// An argument of a tool.
#[derive(Debug)]
pub struct Argument {
    pub name: &'static str,
    pub kind: Kind,
    pub description: Option<String>,
}

/// What an [`Argument`] stands for.
#[verifier::ext_equal]
pub struct ArgumentView {
    pub name: Seq<char>,
    pub kind: KindView,
    pub description: Option<Seq<char>>,
}

impl View for Argument {
    type V = ArgumentView;

    open spec fn view(&self) -> ArgumentView {
        ArgumentView {
            name: self.name@,
            kind: self.kind@,
            description: text::opt(self.description),
        }
    }
}

/// The schema of a value of one type.
pub open spec fn type_json(name: Seq<char>) -> JsonView {
    JsonView::Object(seq![("type"@, JsonView::Text(name))])
}

/// The schema of a piece of content.
pub open spec fn content_json() -> JsonView {
    JsonView::Object(
        seq![
            ("type"@, JsonView::Text("object"@)),
            (
                "properties"@,
                JsonView::Object(
                    seq![
                        ("type"@, type_json("string"@)),
                        ("text"@, type_json("string"@)),
                        ("name"@, type_json("string"@)),
                        ("path"@, type_json("string"@)),
                        ("image_url"@, type_json("string"@)),
                    ],
                ),
            ),
        ],
    )
}

/// The members of a kind's schema.
pub open spec fn kind_members(k: KindView) -> Seq<(Seq<char>, JsonView)> {
    match k {
        KindView::Text => seq![("type"@, JsonView::Text("string"@))],
        KindView::Flag => seq![("type"@, JsonView::Text("boolean"@))],
        KindView::Integer { min, max } => {
            let least = seq![
                ("type"@, JsonView::Text("integer"@)),
                ("minimum"@, JsonView::Int(min)),
            ];
            match max {
                Some(m) => least.push(("maximum"@, JsonView::Int(m))),
                None => least,
            }
        },
        KindView::OneOf(v) => seq![
            ("type"@, JsonView::Text("string"@)),
            ("enum"@, json::texts_view(v)),
        ],
        KindView::TextList => seq![
            ("type"@, JsonView::Text("array"@)),
            ("items"@, type_json("string"@)),
        ],
        KindView::ContentList => seq![
            ("type"@, JsonView::Text("array"@)),
            ("items"@, content_json()),
        ],
    }
}

/// The schema of an argument.
pub open spec fn argument_json(a: ArgumentView) -> JsonView {
    match a.description {
        Some(d) => JsonView::Object(
            kind_members(a.kind).push(("description"@, JsonView::Text(d))),
        ),
        None => JsonView::Object(kind_members(a.kind)),
    }
}

/// The schema of arguments, some of which must be given.
pub open spec fn schema_view(
    arguments: Seq<ArgumentView>,
    required: Option<Seq<Seq<char>>>,
) -> JsonView {
    let members = seq![
        ("type"@, JsonView::Text("object"@)),
        (
            "properties"@,
            JsonView::Object(arguments.map_values(|a: ArgumentView| (a.name, argument_json(a)))),
        ),
    ];
    match required {
        Some(r) => JsonView::Object(members.push(("required"@, json::texts_view(r)))),
        None => JsonView::Object(members),
    }
}

fn show_type(name: &str) -> (r: Json)
    ensures
        r@ == type_json(name@),
{
    let f = Fields::new().with("type", text_json(name));
    assert(f@ =~= seq![("type"@, JsonView::Text(name@))]);
    f.object()
}

fn show_content() -> (r: Json)
    ensures
        r@ == content_json(),
{
    let inner = Fields::new().with("type", show_type("string")).with(
        "text",
        show_type("string"),
    ).with("name", show_type("string")).with("path", show_type("string")).with(
        "image_url",
        show_type("string"),
    );
    assert(inner@ =~= seq![
        ("type"@, type_json("string"@)),
        ("text"@, type_json("string"@)),
        ("name"@, type_json("string"@)),
        ("path"@, type_json("string"@)),
        ("image_url"@, type_json("string"@)),
    ]);
    let f = Fields::new().with("type", text_json("object")).with("properties", inner.object());
    assert(f@ =~= content_json()->Object_0);
    f.object()
}

fn show_kind(k: &Kind) -> (r: Fields)
    ensures
        r@ == kind_members(k@),
{
    let f = match k {
        Kind::Text => Fields::new().with("type", text_json("string")),
        Kind::Flag => Fields::new().with("type", text_json("boolean")),
        Kind::Integer { min, max } => {
            let least = Fields::new().with("type", text_json("integer")).with(
                "minimum",
                Json::Unsigned(*min),
            );
            match max {
                Some(m) => least.with("maximum", Json::Unsigned(*m)),
                None => least,
            }
        },
        Kind::OneOf(v) => Fields::new().with("type", text_json("string")).with(
            "enum",
            texts_json(v),
        ),
        Kind::TextList => Fields::new().with("type", text_json("array")).with(
            "items",
            show_type("string"),
        ),
        Kind::ContentList => Fields::new().with("type", text_json("array")).with(
            "items",
            show_content(),
        ),
    };
    assert(f@ =~= kind_members(k@));
    f
}

fn show_argument(a: &Argument) -> (r: Json)
    ensures
        r@ == argument_json(a@),
{
    let f = show_kind(&a.kind);
    match &a.description {
        Some(d) => f.with("description", text_json(d)).object(),
        None => f.object(),
    }
}

/// Names in a row, with a word before the last.
pub open spec fn choice_view(names: Seq<Seq<char>>) -> Seq<char> {
    if names.len() == 0 {
        Seq::empty()
    } else if names.len() == 1 {
        names[0]
    } else {
        text::join_view(names.drop_last(), ", "@) + ", or "@ + names.last()
    }
}

fn choice(names: &Vec<String>) -> (r: String)
    ensures
        r@ == choice_view(text::views(names@)),
{
    let n: usize = names.len();
    assert(text::views(names@).len() == n);
    if n == 0 {
        return String::new();
    }
    assert(text::views(names@)[n - 1] == names@[n - 1]@);
    if n == 1 {
        return own(&names[0]);
    }
    let mut front: Vec<String> = Vec::new();
    push_range(&mut front, names, 0, n - 1);
    assert(text::views(front@) =~= text::views(names@).drop_last());
    cat3(&join(&front, ", "), ", or ", &names[n - 1])
}

/// The schema of arguments, some of which must be given.
pub fn schema(arguments: &Vec<Argument>, required: Option<&Vec<String>>) -> (r: Json)
    ensures
        r@ == schema_view(
            text::views(arguments@),
            match required {
                Some(v) => Some(text::views(v@)),
                None => None,
            },
        ),
{
    let ghost av = text::views(arguments@);
    let ghost want = av.map_values(|a: ArgumentView| (a.name, argument_json(a)));
    let mut inner = Fields::new();
    let mut i: usize = 0;
    assert(inner@ =~= want.take(0));
    while i < arguments.len()
        invariant
            i <= arguments.len(),
            av == text::views(arguments@),
            want == av.map_values(|a: ArgumentView| (a.name, argument_json(a))),
            inner@ == want.take(i as int),
        decreases arguments.len() - i,
    {
        assert(av[i as int] == arguments@[i as int]@);
        inner = inner.with(arguments[i].name, show_argument(&arguments[i]));
        i += 1;
        assert(inner@ =~= want.take(i as int));
    }
    assert(want.take(i as int) =~= want);
    let f = Fields::new().with("type", text_json("object")).with("properties", inner.object());
    assert(f@ =~= seq![
        ("type"@, JsonView::Text("object"@)),
        ("properties"@, JsonView::Object(want)),
    ]);
    match required {
        Some(v) => f.with("required", texts_json(v)).object(),
        None => f.object(),
    }
}

/// The schema of arguments of which nothing is said.
pub open spec fn open_view() -> JsonView {
    JsonView::Object(
        seq![
            ("type"@, JsonView::Text("object"@)),
            ("additionalProperties"@, JsonView::Bool(true)),
        ],
    )
}

/// The schema of arguments of which nothing is said.
pub fn open_schema() -> (r: Json)
    ensures
        r@ == open_view(),
{
    let f = Fields::new().with("type", text_json("object")).with(
        "additionalProperties",
        Json::Bool(true),
    );
    assert(f@ =~= open_view()->Object_0);
    f.object()
}

impl UpdatePlanTool {
    /// The schema of the tool's arguments.
    pub fn input_schema(&self) -> (r: Json)
        ensures
            r@ == open_view(),
    {
        open_schema()
    }
}

impl RequestUserInputTool {
    /// The schema of the tool's arguments.
    pub fn input_schema(&self) -> (r: Json)
        ensures
            r@ == open_view(),
    {
        open_schema()
    }
}

impl SendInputTool {
    /// The schema of the tool's arguments.
    pub fn input_schema(&self) -> (r: Json)
        ensures
            r@ == open_view(),
    {
        open_schema()
    }
}

impl ResumeAgentTool {
    /// The schema of the tool's arguments.
    pub fn input_schema(&self) -> (r: Json)
        ensures
            r@ == open_view(),
    {
        open_schema()
    }
}

impl WaitAgentTool {
    /// The schema of the tool's arguments.
    pub fn input_schema(&self) -> (r: Json)
        ensures
            r@ == open_view(),
    {
        open_schema()
    }
}

impl CloseAgentTool {
    /// The schema of the tool's arguments.
    pub fn input_schema(&self) -> (r: Json)
        ensures
            r@ == open_view(),
    {
        open_schema()
    }
}

/// The arguments of [`ExecCommandTool`].
pub open spec fn exec_arguments() -> Seq<ArgumentView> {
    seq![
        ArgumentView {
            name: "cmd"@,
            kind: KindView::Text,
            description: None,
        },
        ArgumentView {
            name: "command"@,
            kind: KindView::Text,
            description: None,
        },
        ArgumentView {
            name: "workdir"@,
            kind: KindView::Text,
            description: None,
        },
        ArgumentView {
            name: "timeout_secs"@,
            kind: KindView::Integer { min: 1, max: Some(MAX_EXEC_TIMEOUT_SECS as int) },
            description: None,
        },
        ArgumentView {
            name: "yield_time_ms"@,
            kind: KindView::Integer { min: 0, max: None },
            description: None,
        },
        ArgumentView {
            name: "max_output_tokens"@,
            kind: KindView::Integer { min: 1, max: None },
            description: None,
        },
        ArgumentView {
            name: "tty"@,
            kind: KindView::Flag,
            description: None,
        },
    ]
}

impl ExecCommandTool {
    /// The schema of the tool's arguments.
    pub fn input_schema(&self) -> (r: Json)
        ensures
            r@ == schema_view(
                exec_arguments(),
                None,
            ),
    {
        let arguments: Vec<Argument> = vec![
            Argument {
                name: "cmd",
                kind: Kind::Text,
                description: None,
            },
            Argument {
                name: "command",
                kind: Kind::Text,
                description: None,
            },
            Argument {
                name: "workdir",
                kind: Kind::Text,
                description: None,
            },
            Argument {
                name: "timeout_secs",
                kind: Kind::Integer { min: 1, max: Some(MAX_EXEC_TIMEOUT_SECS) },
                description: None,
            },
            Argument {
                name: "yield_time_ms",
                kind: Kind::Integer { min: 0, max: None },
                description: None,
            },
            Argument {
                name: "max_output_tokens",
                kind: Kind::Integer { min: 1, max: None },
                description: None,
            },
            Argument {
                name: "tty",
                kind: Kind::Flag,
                description: None,
            },
        ];
        assert(text::views(arguments@) =~= exec_arguments());
        schema(&arguments, None)
    }
}

/// The arguments of [`WriteStdinTool`].
pub open spec fn write_stdin_arguments() -> Seq<ArgumentView> {
    seq![
        ArgumentView {
            name: "session_id"@,
            kind: KindView::Text,
            description: None,
        },
        ArgumentView {
            name: "chars"@,
            kind: KindView::Text,
            description: None,
        },
        ArgumentView {
            name: "yield_time_ms"@,
            kind: KindView::Integer { min: 0, max: None },
            description: None,
        },
        ArgumentView {
            name: "max_output_tokens"@,
            kind: KindView::Integer { min: 1, max: None },
            description: None,
        },
    ]
}

impl WriteStdinTool {
    /// The schema of the tool's arguments.
    pub fn input_schema(&self) -> (r: Json)
        ensures
            r@ == schema_view(
                write_stdin_arguments(),
                Some(seq!["session_id"@]),
            ),
    {
        let arguments: Vec<Argument> = vec![
            Argument {
                name: "session_id",
                kind: Kind::Text,
                description: None,
            },
            Argument {
                name: "chars",
                kind: Kind::Text,
                description: None,
            },
            Argument {
                name: "yield_time_ms",
                kind: Kind::Integer { min: 0, max: None },
                description: None,
            },
            Argument {
                name: "max_output_tokens",
                kind: Kind::Integer { min: 1, max: None },
                description: None,
            },
        ];
        assert(text::views(arguments@) =~= write_stdin_arguments());
        let required: Vec<String> = vec![own("session_id")];
        assert(text::views(required@) =~= seq!["session_id"@]);
        schema(&arguments, Some(&required))
    }
}

/// The arguments of [`BashTool`].
pub open spec fn bash_arguments() -> Seq<ArgumentView> {
    seq![
        ArgumentView {
            name: "cmd"@,
            kind: KindView::Text,
            description: Some(
                "The shell command to execute"@,
            ),
        },
        ArgumentView {
            name: "timeout_ms"@,
            kind: KindView::Integer { min: 1000, max: Some(MAX_BASH_TIMEOUT_SECS * 1000) },
            description: Some(
                "Optional timeout in milliseconds (default 120000)"@,
            ),
        },
        ArgumentView {
            name: "workdir"@,
            kind: KindView::Text,
            description: Some(
                "Optional working directory relative to the workspace"@,
            ),
        },
    ]
}

impl BashTool {
    /// The schema of the tool's arguments.
    pub fn input_schema(&self) -> (r: Json)
        ensures
            r@ == schema_view(
                bash_arguments(),
                Some(seq!["cmd"@]),
            ),
    {
        let arguments: Vec<Argument> = vec![
            Argument {
                name: "cmd",
                kind: Kind::Text,
                description: Some(
                    own(
                        "The shell command to execute",
                    ),
                ),
            },
            Argument {
                name: "timeout_ms",
                kind: Kind::Integer { min: 1000, max: Some(MAX_BASH_TIMEOUT_SECS * 1000) },
                description: Some(
                    own(
                        "Optional timeout in milliseconds (default 120000)",
                    ),
                ),
            },
            Argument {
                name: "workdir",
                kind: Kind::Text,
                description: Some(
                    own(
                        "Optional working directory relative to the workspace",
                    ),
                ),
            },
        ];
        assert(text::views(arguments@) =~= bash_arguments());
        let required: Vec<String> = vec![own("cmd")];
        assert(text::views(required@) =~= seq!["cmd"@]);
        schema(&arguments, Some(&required))
    }
}

/// The arguments of [`DelegateAliasTool`], where these are the roles.
pub open spec fn delegate_arguments(roles: Seq<Seq<char>>) -> Seq<ArgumentView> {
    seq![
        ArgumentView {
            name: "role"@,
            kind: KindView::Text,
            description: Some("Subagent role: "@ + choice_view(roles)),
        },
        ArgumentView {
            name: "task"@,
            kind: KindView::Text,
            description: Some(
                "Task description for the subagent"@,
            ),
        },
        ArgumentView {
            name: "timeout_ms"@,
            kind: KindView::Integer { min: 1000, max: Some(MAX_DELEGATE_TIMEOUT_MS as int) },
            description: Some(
                "How long to wait for the child to terminate (default 300000)"@,
            ),
        },
    ]
}

impl DelegateAliasTool {
    /// The schema of the tool's arguments, which names the roles that there are.
    pub fn input_schema(&self, registry: &RoleRegistry) -> (r: Json)
        ensures
            r@ == schema_view(
                delegate_arguments(agents::role_names(registry.templates@)),
                Some(seq!["role"@, "task"@]),
            ),
    {
        let names = registry.names();
        let arguments: Vec<Argument> = vec![
            Argument {
                name: "role",
                kind: Kind::Text,
                description: Some(cat("Subagent role: ", &choice(&names))),
            },
            Argument {
                name: "task",
                kind: Kind::Text,
                description: Some(
                    own(
                        "Task description for the subagent",
                    ),
                ),
            },
            Argument {
                name: "timeout_ms",
                kind: Kind::Integer { min: 1000, max: Some(MAX_DELEGATE_TIMEOUT_MS) },
                description: Some(
                    own(
                        "How long to wait for the child to terminate (default 300000)",
                    ),
                ),
            },
        ];
        assert(text::views(arguments@) =~= delegate_arguments(agents::role_names(registry.templates@)));
        let required: Vec<String> = vec![own("role"), own("task")];
        assert(text::views(required@) =~= seq!["role"@, "task"@]);
        schema(&arguments, Some(&required))
    }
}

/// The arguments of [`SpawnAgentTool`], where these are the roles.
pub open spec fn spawn_arguments(roles: Seq<Seq<char>>) -> Seq<ArgumentView> {
    seq![
        ArgumentView {
            name: "message"@,
            kind: KindView::Text,
            description: None,
        },
        ArgumentView {
            name: "items"@,
            kind: KindView::ContentList,
            description: None,
        },
        ArgumentView {
            name: "agent_type"@,
            kind: KindView::Text,
            description: None,
        },
        ArgumentView {
            name: "fork_context"@,
            kind: KindView::Flag,
            description: None,
        },
        ArgumentView {
            name: "model"@,
            kind: KindView::Text,
            description: None,
        },
        ArgumentView {
            name: "reasoning_effort"@,
            kind: KindView::Text,
            description: None,
        },
        ArgumentView {
            name: "task"@,
            kind: KindView::Text,
            description: None,
        },
        ArgumentView {
            name: "label"@,
            kind: KindView::Text,
            description: None,
        },
        ArgumentView {
            name: "mode"@,
            kind: KindView::OneOf(seq!["background"@, "sync"@]),
            description: None,
        },
        ArgumentView {
            name: "allowed_tools"@,
            kind: KindView::TextList,
            description: None,
        },
        ArgumentView {
            name: "role"@,
            kind: KindView::OneOf(roles),
            description: Some(
                "Optional backend-owned role template that resolves to a tool budget + sandbox + model preference + prompt prefix. When set, the resolved template seeds the spawn payload; inline `allowed_tools` still wins."@,
            ),
        },
    ]
}

impl SpawnAgentTool {
    /// The schema of the tool's arguments, which names the roles that there are.
    pub fn input_schema(&self, registry: &RoleRegistry) -> (r: Json)
        ensures
            r@ == schema_view(
                spawn_arguments(agents::role_names(registry.templates@)),
                None,
            ),
    {
        let names = registry.names();
        let choices: Vec<String> = vec![own("background"), own("sync")];
        assert(text::views(choices@) =~= seq!["background"@, "sync"@]);
        let arguments: Vec<Argument> = vec![
            Argument {
                name: "message",
                kind: Kind::Text,
                description: None,
            },
            Argument {
                name: "items",
                kind: Kind::ContentList,
                description: None,
            },
            Argument {
                name: "agent_type",
                kind: Kind::Text,
                description: None,
            },
            Argument {
                name: "fork_context",
                kind: Kind::Flag,
                description: None,
            },
            Argument {
                name: "model",
                kind: Kind::Text,
                description: None,
            },
            Argument {
                name: "reasoning_effort",
                kind: Kind::Text,
                description: None,
            },
            Argument {
                name: "task",
                kind: Kind::Text,
                description: None,
            },
            Argument {
                name: "label",
                kind: Kind::Text,
                description: None,
            },
            Argument {
                name: "mode",
                kind: Kind::OneOf(choices),
                description: None,
            },
            Argument {
                name: "allowed_tools",
                kind: Kind::TextList,
                description: None,
            },
            Argument {
                name: "role",
                kind: Kind::OneOf(names),
                description: Some(
                    own(
                        "Optional backend-owned role template that resolves to a tool budget + sandbox + model preference + prompt prefix. When set, the resolved template seeds the spawn payload; inline `allowed_tools` still wins.",
                    ),
                ),
            },
        ];
        assert(text::views(arguments@) =~= spawn_arguments(agents::role_names(registry.templates@)));
        schema(&arguments, None)
    }
}

/// The arguments of [`ViewImageTool`].
pub open spec fn view_image_arguments() -> Seq<ArgumentView> {
    seq![
        ArgumentView {
            name: "path"@,
            kind: KindView::Text,
            description: Some(
                "Workspace-relative path to the image"@,
            ),
        },
    ]
}

impl ViewImageTool {
    /// The schema of the tool's arguments.
    pub fn input_schema(&self) -> (r: Json)
        ensures
            r@ == schema_view(
                view_image_arguments(),
                Some(seq!["path"@]),
            ),
    {
        let arguments: Vec<Argument> = vec![
            Argument {
                name: "path",
                kind: Kind::Text,
                description: Some(
                    own(
                        "Workspace-relative path to the image",
                    ),
                ),
            },
        ];
        assert(text::views(arguments@) =~= view_image_arguments());
        let required: Vec<String> = vec![own("path")];
        assert(text::views(required@) =~= seq!["path"@]);
        schema(&arguments, Some(&required))
    }
}

/// The arguments of [`ToolSearchTool`].
pub open spec fn search_arguments() -> Seq<ArgumentView> {
    seq![
        ArgumentView {
            name: "query"@,
            kind: KindView::Text,
            description: Some(
                "Free-form search query (case insensitive)"@,
            ),
        },
        ArgumentView {
            name: "limit"@,
            kind: KindView::Integer { min: 1, max: Some(MAX_LIMIT as int) },
            description: Some(
                "Maximum number of matches to return (default 8)"@,
            ),
        },
    ]
}

impl ToolSearchTool {
    /// The schema of the tool's arguments.
    pub fn input_schema(&self) -> (r: Json)
        ensures
            r@ == schema_view(
                search_arguments(),
                None,
            ),
    {
        let arguments: Vec<Argument> = vec![
            Argument {
                name: "query",
                kind: Kind::Text,
                description: Some(
                    own(
                        "Free-form search query (case insensitive)",
                    ),
                ),
            },
            Argument {
                name: "limit",
                kind: Kind::Integer { min: 1, max: Some(MAX_LIMIT as u64) },
                description: Some(
                    own(
                        "Maximum number of matches to return (default 8)",
                    ),
                ),
            },
        ];
        assert(text::views(arguments@) =~= search_arguments());
        schema(&arguments, None)
    }
}

/// The arguments of [`ToolSuggestTool`].
pub open spec fn suggest_arguments() -> Seq<ArgumentView> {
    seq![
        ArgumentView {
            name: "task"@,
            kind: KindView::Text,
            description: Some(
                "Free-form description of the task you want a tool for"@,
            ),
        },
        ArgumentView {
            name: "query"@,
            kind: KindView::Text,
            description: Some(
                "Alias for `task`. Either field is accepted."@,
            ),
        },
        ArgumentView {
            name: "limit"@,
            kind: KindView::Integer { min: 1, max: Some(MAX_LIMIT as int) },
            description: Some(
                "Maximum number of suggestions to return (default 8)"@,
            ),
        },
    ]
}

impl ToolSuggestTool {
    /// The schema of the tool's arguments.
    pub fn input_schema(&self) -> (r: Json)
        ensures
            r@ == schema_view(
                suggest_arguments(),
                None,
            ),
    {
        let arguments: Vec<Argument> = vec![
            Argument {
                name: "task",
                kind: Kind::Text,
                description: Some(
                    own(
                        "Free-form description of the task you want a tool for",
                    ),
                ),
            },
            Argument {
                name: "query",
                kind: Kind::Text,
                description: Some(
                    own(
                        "Alias for `task`. Either field is accepted.",
                    ),
                ),
            },
            Argument {
                name: "limit",
                kind: Kind::Integer { min: 1, max: Some(MAX_LIMIT as u64) },
                description: Some(
                    own(
                        "Maximum number of suggestions to return (default 8)",
                    ),
                ),
            },
        ];
        assert(text::views(arguments@) =~= suggest_arguments());
        schema(&arguments, None)
    }
}

/// The arguments of [`ImageGenerationTool`].
pub open spec fn image_generation_arguments() -> Seq<ArgumentView> {
    seq![
        ArgumentView {
            name: "prompt"@,
            kind: KindView::Text,
            description: Some(
                "Free-form text prompt describing the image to generate"@,
            ),
        },
        ArgumentView {
            name: "size"@,
            kind: KindView::Text,
            description: Some(
                "Optional output size hint (e.g. `1024x1024`). Provider-specific; reserved for the backend-bound variant."@,
            ),
        },
        ArgumentView {
            name: "n"@,
            kind: KindView::Integer { min: 1, max: Some(4) },
            description: Some(
                "Optional number of images to generate (1-4). Reserved for the backend-bound variant."@,
            ),
        },
    ]
}

impl ImageGenerationTool {
    /// The schema of the tool's arguments.
    pub fn input_schema(&self) -> (r: Json)
        ensures
            r@ == schema_view(
                image_generation_arguments(),
                Some(seq!["prompt"@]),
            ),
    {
        let arguments: Vec<Argument> = vec![
            Argument {
                name: "prompt",
                kind: Kind::Text,
                description: Some(
                    own(
                        "Free-form text prompt describing the image to generate",
                    ),
                ),
            },
            Argument {
                name: "size",
                kind: Kind::Text,
                description: Some(
                    own(
                        "Optional output size hint (e.g. `1024x1024`). Provider-specific; reserved for the backend-bound variant.",
                    ),
                ),
            },
            Argument {
                name: "n",
                kind: Kind::Integer { min: 1, max: Some(4) },
                description: Some(
                    own(
                        "Optional number of images to generate (1-4). Reserved for the backend-bound variant.",
                    ),
                ),
            },
        ];
        assert(text::views(arguments@) =~= image_generation_arguments());
        let required: Vec<String> = vec![own("prompt")];
        assert(text::views(required@) =~= seq!["prompt"@]);
        schema(&arguments, Some(&required))
    }
}

/// The arguments of [`CheckTool`].
pub open spec fn check_arguments() -> Seq<ArgumentView> {
    seq![
        ArgumentView {
            name: "path"@,
            kind: KindView::Text,
            description: Some(
                "Optional directory (relative to the workspace root) to scope the check; defaults to the workspace root"@,
            ),
        },
    ]
}

impl CheckTool {
    /// The schema of the tool's arguments.
    pub fn input_schema(&self) -> (r: Json)
        ensures
            r@ == schema_view(
                check_arguments(),
                Some(Seq::empty()),
            ),
    {
        let arguments: Vec<Argument> = vec![
            Argument {
                name: "path",
                kind: Kind::Text,
                description: Some(
                    own(
                        "Optional directory (relative to the workspace root) to scope the check; defaults to the workspace root",
                    ),
                ),
            },
        ];
        assert(text::views(arguments@) =~= check_arguments());
        let required: Vec<String> = Vec::new();
        proof {
            text::lemma_views_empty(required@);
        }
        schema(&arguments, Some(&required))
    }
}

/// The arguments of [`ApplyPatchTool`].
pub open spec fn apply_patch_arguments() -> Seq<ArgumentView> {
    seq![
        ArgumentView {
            name: "patch"@,
            kind: KindView::Text,
            description: Some(
                "Codex patch envelope: '*** Begin Patch', then one or more '*** Add File: <path>' / '*** Delete File: <path>' / '*** Update File: <path>' sections (Update may be followed by '*** Move to: <path>' and unified-diff hunks under '@@' markers), then '*** End Patch'. Paths must be workspace-relative."@,
            ),
        },
        ArgumentView {
            name: "path"@,
            kind: KindView::Text,
            description: Some(
                "Single file path when applying a plain unified diff instead of an envelope"@,
            ),
        },
        ArgumentView {
            name: "diff"@,
            kind: KindView::Text,
            description: Some(
                "Unified diff (with @@ hunk headers) applied to path"@,
            ),
        },
    ]
}

impl ApplyPatchTool {
    /// The schema of the tool's arguments.
    pub fn input_schema(&self) -> (r: Json)
        ensures
            r@ == schema_view(
                apply_patch_arguments(),
                None,
            ),
    {
        let arguments: Vec<Argument> = vec![
            Argument {
                name: "patch",
                kind: Kind::Text,
                description: Some(
                    own(
                        "Codex patch envelope: '*** Begin Patch', then one or more '*** Add File: <path>' / '*** Delete File: <path>' / '*** Update File: <path>' sections (Update may be followed by '*** Move to: <path>' and unified-diff hunks under '@@' markers), then '*** End Patch'. Paths must be workspace-relative.",
                    ),
                ),
            },
            Argument {
                name: "path",
                kind: Kind::Text,
                description: Some(
                    own(
                        "Single file path when applying a plain unified diff instead of an envelope",
                    ),
                ),
            },
            Argument {
                name: "diff",
                kind: Kind::Text,
                description: Some(
                    own(
                        "Unified diff (with @@ hunk headers) applied to path",
                    ),
                ),
            },
        ];
        assert(text::views(arguments@) =~= apply_patch_arguments());
        schema(&arguments, None)
    }
}

/// The arguments of [`DiffEditTool`].
pub open spec fn diff_edit_arguments() -> Seq<ArgumentView> {
    seq![
        ArgumentView {
            name: "path"@,
            kind: KindView::Text,
            description: Some(
                "Path to the file to edit"@,
            ),
        },
        ArgumentView {
            name: "diff"@,
            kind: KindView::Text,
            description: Some(
                "Unified diff to apply (with @@ hunk headers)"@,
            ),
        },
    ]
}

impl DiffEditTool {
    /// The schema of the tool's arguments.
    pub fn input_schema(&self) -> (r: Json)
        ensures
            r@ == schema_view(
                diff_edit_arguments(),
                Some(seq!["path"@, "diff"@]),
            ),
    {
        let arguments: Vec<Argument> = vec![
            Argument {
                name: "path",
                kind: Kind::Text,
                description: Some(
                    own(
                        "Path to the file to edit",
                    ),
                ),
            },
            Argument {
                name: "diff",
                kind: Kind::Text,
                description: Some(
                    own(
                        "Unified diff to apply (with @@ hunk headers)",
                    ),
                ),
            },
        ];
        assert(text::views(arguments@) =~= diff_edit_arguments());
        let required: Vec<String> = vec![own("path"), own("diff")];
        assert(text::views(required@) =~= seq!["path"@, "diff"@]);
        schema(&arguments, Some(&required))
    }
}

} // verus!
