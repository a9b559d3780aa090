//! Subagents: what a spawn request comes to, and how role templates bound it.

use vstd::prelude::*;

use crate::codec;
use crate::codec::render_json;
use crate::json;
use crate::json::{filled_text, text_json, texts_json, Fields, Json, JsonView};
use crate::text;
use crate::text::{cat, cat3, cat4, chars_of, debug_string, join, same, trim};
use crate::tool;
use crate::tool::{detailed, ToolResult, ToolResultView};

verus! {

/// A role that the server knows.
#[derive(Debug)]
pub struct RoleTemplate {
    /// The canonical name.
    pub name: String,
    pub display_name: String,
    /// The agent types that stand for this role.
    pub agent_types: Vec<String>,
    /// The tools that a child in this role may have, by their own names.
    pub spawn_tools: Vec<String>,
    pub default_sandbox_mode: String,
    pub default_approval_policy: String,
    pub model_preference: String,
    /// What clients are shown of the role.
    pub summary: Json,
}

/// The roles that the server knows.
#[derive(Debug)]
pub struct RoleRegistry {
    pub templates: Vec<RoleTemplate>,
}

/// The names of roles.
pub open spec fn role_names(templates: Seq<RoleTemplate>) -> Seq<Seq<char>> {
    Seq::new(templates.len(), |i: int| templates[i].name@)
}

/// The position of the first role from `i` on with the given name.
pub open spec fn named_from(templates: Seq<RoleTemplate>, name: Seq<char>, i: int) -> Option<int>
    decreases templates.len() - i,
{
    if i >= templates.len() {
        None
    } else if templates[i].name@ == name {
        Some(i)
    } else {
        named_from(templates, name, i + 1)
    }
}

/// The position of the first role from `i` on that an agent type stands for.
pub open spec fn typed_from(templates: Seq<RoleTemplate>, agent_type: Seq<char>, i: int) -> Option<
    int,
>
    decreases templates.len() - i,
{
    if i >= templates.len() {
        None
    } else if text::views(templates[i].agent_types@).contains(agent_type) {
        Some(i)
    } else {
        typed_from(templates, agent_type, i + 1)
    }
}

/// The role at a position.
pub open spec fn at_position(templates: Seq<RoleTemplate>, i: Option<int>) -> Option<
    RoleTemplate,
> {
    match i {
        Some(i) => Some(templates[i]),
        None => None,
    }
}

/// The value behind an optional reference.
pub open spec fn deref_role(o: Option<&RoleTemplate>) -> Option<RoleTemplate> {
    match o {
        Some(t) => Some(*t),
        None => None,
    }
}

impl RoleRegistry {
    /// The role with the given name.
    pub open spec fn named(self, name: Seq<char>) -> Option<RoleTemplate> {
        at_position(self.templates@, named_from(self.templates@, name, 0))
    }

    /// The role that an agent type stands for.
    pub open spec fn typed(self, agent_type: Seq<char>) -> Option<RoleTemplate> {
        at_position(self.templates@, typed_from(self.templates@, agent_type, 0))
    }

    /// The role with the given name.
    pub fn for_name(&self, name: &str) -> (r: Option<&RoleTemplate>)
        ensures
            deref_role(r) == self.named(name@),
    {
        let mut i: usize = 0;
        while i < self.templates.len()
            invariant
                i <= self.templates.len(),
                named_from(self.templates@, name@, i as int) == named_from(
                    self.templates@,
                    name@,
                    0,
                ),
            decreases self.templates.len() - i,
        {
            if same(&self.templates[i].name, name) {
                return Some(&self.templates[i]);
            }
            i += 1;
        }
        None
    }

    /// The role that an agent type stands for.
    pub fn for_codex_agent_type(&self, agent_type: &str) -> (r: Option<&RoleTemplate>)
        ensures
            deref_role(r) == self.typed(agent_type@),
    {
        let mut i: usize = 0;
        while i < self.templates.len()
            invariant
                i <= self.templates.len(),
                typed_from(self.templates@, agent_type@, i as int) == typed_from(
                    self.templates@,
                    agent_type@,
                    0,
                ),
            decreases self.templates.len() - i,
        {
            let types = &self.templates[i].agent_types;
            let ghost tv = text::views(types@);
            let mut k: usize = 0;
            while k < types.len()
                invariant
                    i < self.templates.len(),
                    types == &self.templates@[i as int].agent_types,
                    k <= types.len(),
                    tv == text::views(types@),
                    typed_from(self.templates@, agent_type@, i as int) == typed_from(
                        self.templates@,
                        agent_type@,
                        0,
                    ),
                    forall|m: int| 0 <= m < k ==> #[trigger] tv[m] != agent_type@,
                decreases types.len() - k,
            {
                if same(&types[k], agent_type) {
                    assert(tv[k as int] == agent_type@);
                    return Some(&self.templates[i]);
                }
                k += 1;
            }
            i += 1;
        }
        None
    }

    /// The names of all roles.
    pub fn names(&self) -> (r: Vec<String>)
        ensures
            text::views(r@) == role_names(self.templates@),
    {
        let mut out: Vec<String> = Vec::new();
        let mut i: usize = 0;
        while i < self.templates.len()
            invariant
                i <= self.templates.len(),
                out.len() == i,
                forall|k: int| 0 <= k < i ==> #[trigger] out@[k]@ == self.templates@[k].name@,
            decreases self.templates.len() - i,
        {
            out.push(self.templates[i].name.clone());
            i += 1;
        }
        assert(text::views(out@) =~= role_names(self.templates@));
        out
    }
}

/// A character of a role name in canonical form.
pub open spec fn canonical_char(c: char) -> char {
    if 'A' <= c <= 'Z' {
        ((c as u32) + 32) as char
    } else if c == '-' || c == ' ' {
        '_'
    } else {
        c
    }
}

/// A role name in canonical form: trimmed, in ASCII lower case, with underscores for hyphens
/// and spaces.
pub open spec fn canonical_role(s: Seq<char>) -> Seq<char> {
    let t = text::trim_view(s);
    Seq::new(t.len(), |i: int| canonical_char(t[i]))
}

/// A role name in canonical form.
pub fn canonicalize_role(s: &str) -> (r: String)
    ensures
        r@ == canonical_role(s@),
{
    let v = chars_of(&trim(s));
    let mut out = String::new();
    let mut i: usize = 0;
    while i < v.len()
        invariant
            i <= v.len(),
            v@ == text::trim_view(s@),
            out@ == canonical_role(s@).take(i as int),
        decreases v.len() - i,
    {
        let c = v[i];
        let d = if 'A' <= c && c <= 'Z' {
            (c as u8 + 32) as char
        } else if c == '-' || c == ' ' {
            '_'
        } else {
            c
        };
        out.push(d);
        i += 1;
        assert(out@ =~= canonical_role(s@).take(i as int));
    }
    assert(out@ =~= canonical_role(s@));
    out
}

/// The role that a request names, directly or by its agent type.
pub open spec fn requested_role(registry: RoleRegistry, args: JsonView) -> Result<
    Option<RoleTemplate>,
    Seq<char>,
> {
    let name = match json::text_member(args, "role"@) {
        Some(s) => canonical_role(s),
        None => Seq::empty(),
    };
    if name.len() > 0 {
        match registry.named(name) {
            Some(t) => Ok(Some(t)),
            None => Err(name),
        }
    } else {
        match json::filled(json::text_member(args, "agent_type"@)) {
            Some(t) => Ok(registry.typed(t)),
            None => Ok(None),
        }
    }
}

/// The answer to a request that names an unknown role.
pub open spec fn unknown_role(registry: RoleRegistry, name: Seq<char>) -> ToolResultView {
    let names = role_names(registry.templates@);
    tool::detailed_view(
        "spawn_agent: unknown role "@ + text::debug_text(name) + "; registered roles: "@
            + text::join_view(names, ", "@),
        false,
        JsonView::Object(
            seq![
                ("codex_tool"@, JsonView::Text("spawn_agent"@)),
                ("error"@, JsonView::Text("unknown_role"@)),
                ("role"@, JsonView::Text(name)),
                ("registered_roles"@, json::texts_view(names)),
            ],
        ),
    )
}

/// The role that a request names, or the answer to one that names an unknown role.
pub fn resolve_role<'a>(registry: &'a RoleRegistry, args: &Json) -> (r: Result<
    Option<&'a RoleTemplate>,
    ToolResult,
>)
    ensures
        match (r, requested_role(*registry, args@)) {
            (Ok(t), Ok(v)) => deref_role(t) == v,
            (Err(answer), Err(name)) => answer@ == unknown_role(*registry, name),
            _ => false,
        },
{
    let name = match args.get_text("role") {
        Some(s) => canonicalize_role(s),
        None => String::new(),
    };
    if !name.as_str().is_empty() {
        return match registry.for_name(&name) {
            Some(t) => Ok(Some(t)),
            None => {
                let names = registry.names();
                let fields = Fields::new().with("codex_tool", text_json("spawn_agent")).with(
                    "error",
                    text_json("unknown_role"),
                ).with("role", text_json(&name)).with("registered_roles", texts_json(&names));
                assert(fields@ =~= unknown_role(
                    *registry,
                    name@,
                ).structured_metadata->0->Object_0);
                Err(
                    detailed(
                        cat4(
                            "spawn_agent: unknown role ",
                            &debug_string(&name),
                            "; registered roles: ",
                            &join(&names, ", "),
                        ),
                        false,
                        fields.object(),
                    ),
                )
            },
        };
    }
    match filled_text(args.get_text("agent_type")) {
        Some(t) => Ok(registry.for_codex_agent_type(&t)),
        None => Ok(None),
    }
}

/// The first of `text`, `name`, `path` and `image_url` that an item has.
pub open spec fn item_body(item: JsonView) -> Option<Seq<char>> {
    let found = match json::member(item, "text"@) {
        Some(v) => Some(v),
        None => match json::member(item, "name"@) {
            Some(v) => Some(v),
            None => match json::member(item, "path"@) {
                Some(v) => Some(v),
                None => json::member(item, "image_url"@),
            },
        },
    };
    match found {
        Some(v) => json::filled(json::text_of(v)),
        None => None,
    }
}

/// An item as a line of text.
pub open spec fn item_line(item: JsonView) -> Option<Seq<char>> {
    match item_body(item) {
        Some(body) => Some(
            "["@ + (match json::text_member(item, "type"@) {
                Some(kind) => kind,
                None => "item"@,
            }) + "] "@ + body,
        ),
        None => None,
    }
}

/// The lines of the first `n` items.
pub open spec fn item_lines(items: Seq<JsonView>, n: int) -> Seq<Seq<char>>
    decreases n,
{
    if n <= 0 {
        Seq::empty()
    } else {
        let before = item_lines(items, n - 1);
        match item_line(items[n - 1]) {
            Some(l) => before.push(l),
            None => before,
        }
    }
}

/// The elements of an array member.
pub open spec fn array_member(j: JsonView, key: Seq<char>) -> Option<Seq<JsonView>> {
    match json::member(j, key) {
        Some(JsonView::Array(v)) => Some(v),
        _ => None,
    }
}

/// The items of a request as lines of text.
pub open spec fn items_view(args: JsonView) -> Seq<Seq<char>> {
    match array_member(args, "items"@) {
        Some(items) => item_lines(items, items.len() as int),
        None => Seq::empty(),
    }
}

/// An item as a line of text.
fn describe_item(item: &Json) -> (r: Option<String>)
    ensures
        text::opt(r) == item_line(item@),
{
    let found = match item.get("text") {
        Some(v) => Some(v),
        None => match item.get("name") {
            Some(v) => Some(v),
            None => match item.get("path") {
                Some(v) => Some(v),
                None => item.get("image_url"),
            },
        },
    };
    let body = match found {
        Some(v) => filled_text(v.as_text()),
        None => None,
    };
    match body {
        Some(body) => Some(
            match item.get_text("type") {
                Some(kind) => cat4("[", kind, "] ", &body),
                None => cat4("[", "item", "] ", &body),
            },
        ),
        None => None,
    }
}

/// The items of a request as lines of text.
pub fn codex_items_text(args: &Json) -> (r: Vec<String>)
    ensures
        text::views(r@) == items_view(args@),
{
    broadcast use {text::lemma_views_push, json::lemma_array_view};

    let mut out: Vec<String> = Vec::new();
    proof {
        text::lemma_views_empty(out@);
    }
    if let Some(Json::Array(items)) = args.get("items") {
        let ghost iv = text::views(items@);
        assert(array_member(args@, "items"@) == Some(iv));
        let mut i: usize = 0;
        while i < items.len()
            invariant
                i <= items.len(),
                iv == text::views(items@),
                text::views(out@) == item_lines(iv, i as int),
            decreases items.len() - i,
        {
            assert(iv[i as int] == items@[i as int]@);
            if let Some(line) = describe_item(&items[i]) {
                out.push(line);
            }
            i += 1;
        }
    }
    out
}

/// `existing` with `instruction` on a new line; alone where nothing was there.
pub open spec fn appended(existing: Option<Seq<char>>, instruction: Seq<char>) -> Option<
    Seq<char>,
> {
    if text::trim_view(instruction).len() == 0 {
        existing
    } else {
        match existing {
            Some(e) => if text::trim_view(e).len() > 0 {
                Some(e + "\n"@ + instruction)
            } else {
                Some(instruction)
            },
            None => Some(instruction),
        }
    }
}

/// `existing` with `instruction` on a new line; alone where nothing was there.
pub fn append_instruction(existing: Option<String>, instruction: String) -> (r: Option<String>)
    ensures
        text::opt(r) == appended(text::opt(existing), instruction@),
{
    let blank = trim(&instruction);
    if blank.as_str().is_empty() {
        return existing;
    }
    if let Some(e) = existing {
        let t = trim(&e);
        if !t.as_str().is_empty() {
            return Some(cat3(&e, "\n", &instruction));
        }
    }
    Some(instruction)
}

/// The names that a spawn request takes over from its arguments.
pub open spec fn is_spawn_key(key: Seq<char>) -> bool {
    ||| key == "task"@
    ||| key == "label"@
    ||| key == "mode"@
    ||| key == "allowed_tools"@
    ||| key == "context"@
    ||| key == "model"@
    ||| key == "context_window"@
    ||| key == "additional_instructions"@
    ||| key == "workflow"@
    ||| key == "backend"@
    ||| key == "agent_mcp_tool_name"@
    ||| key == "agent_definition_id"@
    ||| key == "role"@
}

/// What a child is told to do: the task, else the message, else the arguments as text; and
/// the items of the request.
pub open spec fn task_view(args: JsonView) -> Seq<char> {
    let lead = match json::filled(json::text_member(args, "task"@)) {
        Some(t) => t,
        None => match json::filled(json::text_member(args, "message"@)) {
            Some(t) => t,
            None => codec::json_text(args),
        },
    };
    let items = items_view(args);
    if items.len() > 0 {
        lead + "\n\nItems:\n"@ + text::join_view(items, "\n"@)
    } else {
        lead
    }
}

/// Whether a role argument says nothing.
pub open spec fn is_blank_role(role: Option<JsonView>) -> bool {
    match role {
        None => true,
        Some(JsonView::Null) => true,
        Some(JsonView::Text(s)) => text::trim_view(s).len() == 0,
        Some(_) => false,
    }
}

/// The role that a spawn request carries: the canonical name of the resolved one, else what
/// the caller wrote, else that of the agent type.
pub open spec fn role_member(
    registry: RoleRegistry,
    args: JsonView,
    role: Option<RoleTemplate>,
) -> Option<JsonView> {
    match role {
        Some(t) => Some(JsonView::Text(t.name@)),
        None => if !is_blank_role(json::member(args, "role"@)) {
            json::member(args, "role"@)
        } else {
            match json::text_member(args, "agent_type"@) {
                Some(a) => match registry.typed(a) {
                    Some(t) => Some(JsonView::Text(t.name@)),
                    None => None,
                },
                None => None,
            }
        },
    }
}

/// Whether a request refers to an agent manifest.
pub open spec fn has_manifest(args: JsonView) -> bool {
    json::filled(json::text_member(args, "agent_definition_id"@)) is Some
}

/// Whether a request names tools of its own.
pub open spec fn has_own_tools(args: JsonView) -> bool {
    match array_member(args, "allowed_tools"@) {
        Some(v) => v.len() > 0,
        None => false,
    }
}

/// The tools that a spawn request carries: those of the caller where it names any; else,
/// under a role, those of the role, unless a manifest will say.
pub open spec fn tools_member(args: JsonView, role: Option<RoleTemplate>) -> Option<JsonView> {
    match role {
        None => json::member(args, "allowed_tools"@),
        Some(t) => if has_own_tools(args) {
            json::member(args, "allowed_tools"@)
        } else if has_manifest(args) {
            None
        } else {
            Some(json::texts_view(text::views(t.spawn_tools@)))
        },
    }
}

/// The instructions that a spawn request adds to those of the caller.
pub open spec fn instructions(args: JsonView) -> Option<Seq<char>> {
    let first = json::text_member(args, "additional_instructions"@);
    let second = match json::filled(json::text_member(args, "agent_type"@)) {
        Some(t) => appended(first, "Requested Codex agent_type: "@ + t + "."@),
        None => first,
    };
    let third = match json::filled(json::text_member(args, "reasoning_effort"@)) {
        Some(t) => appended(second, "Requested reasoning_effort: "@ + t + "."@),
        None => second,
    };
    if json::member(args, "fork_context"@) == Some(JsonView::Bool(true)) {
        appended(
            third,
            "Fork current parent context if the runtime has a child context manager bound."@,
        )
    } else {
        third
    }
}

/// The member `key` of a spawn request made of `args` under a resolved role.
pub open spec fn spawn_member(
    registry: RoleRegistry,
    args: JsonView,
    role: Option<RoleTemplate>,
    key: Seq<char>,
) -> Option<JsonView> {
    if key == "task"@ {
        Some(JsonView::Text(task_view(args)))
    } else if key == "mode"@ {
        match json::member(args, "mode"@) {
            Some(v) => Some(v),
            None => Some(JsonView::Text("background"@)),
        }
    } else if key == "label"@ {
        match json::member(args, "label"@) {
            Some(v) => Some(v),
            None => match json::filled(json::text_member(args, "agent_type"@)) {
                Some(t) => Some(JsonView::Text("codex-"@ + t)),
                None => None,
            },
        }
    } else if key == "role"@ {
        role_member(registry, args, role)
    } else if key == "allowed_tools"@ {
        tools_member(args, role)
    } else if key == "additional_instructions"@ {
        match instructions(args) {
            Some(t) => Some(JsonView::Text(t)),
            None => json::member(args, "additional_instructions"@),
        }
    } else if is_spawn_key(key) {
        json::member(args, key)
    } else {
        None
    }
}

/// Whether a value is the spawn request made of `args` under a resolved role.
pub open spec fn is_spawn_request(
    registry: RoleRegistry,
    args: JsonView,
    role: Option<RoleTemplate>,
    request: JsonView,
) -> bool {
    &&& request is Object
    &&& json::distinct(json::members(request))
    &&& forall|key: Seq<char>| #[trigger]
        json::member(request, key) == spawn_member(registry, args, role, key)
}

proof fn lemma_spawn_keys_differ()
    ensures
        "task"@ != "mode"@,
        "task"@ != "label"@,
        "task"@ != "role"@,
        "task"@ != "allowed_tools"@,
        "task"@ != "additional_instructions"@,
        "task"@ != "agent_definition_id"@,
        "mode"@ != "label"@,
        "mode"@ != "role"@,
        "mode"@ != "allowed_tools"@,
        "mode"@ != "additional_instructions"@,
        "mode"@ != "agent_definition_id"@,
        "label"@ != "role"@,
        "label"@ != "allowed_tools"@,
        "label"@ != "additional_instructions"@,
        "label"@ != "agent_definition_id"@,
        "role"@ != "allowed_tools"@,
        "role"@ != "additional_instructions"@,
        "role"@ != "agent_definition_id"@,
        "allowed_tools"@ != "additional_instructions"@,
        "allowed_tools"@ != "agent_definition_id"@,
        "additional_instructions"@ != "agent_definition_id"@,
{
    reveal_strlit("task");
    reveal_strlit("mode");
    reveal_strlit("label");
    reveal_strlit("role");
    reveal_strlit("allowed_tools");
    reveal_strlit("additional_instructions");
    reveal_strlit("agent_definition_id");
    assert("task"@[0] == 't' && "mode"@[0] == 'm' && "role"@[0] == 'r');
    assert("task"@.len() == 4 && "mode"@.len() == 4 && "role"@.len() == 4 && "label"@.len() == 5);
    assert("allowed_tools"@.len() == 13 && "agent_definition_id"@.len() == 19
        && "additional_instructions"@.len() == 23);
}

/// Takes a member over from the arguments, where they have it.
fn copy_member(out: Fields, args: &Json, key: &str) -> (r: Fields)
    requires
        json::distinct(out@),
    ensures
        json::distinct(r@),
        forall|k: Seq<char>| #[trigger]
            json::member_from(r@, k, 0) == (if k == key@ && json::member(args@, key@) is Some {
                json::member(args@, key@)
            } else {
                json::member_from(out@, k, 0)
            }),
{
    match args.get(key) {
        Some(v) => {
            let v = v.copy();
            proof {
                json::lemma_put(out@, key@, v@);
            }
            out.put(key, v)
        },
        None => out,
    }
}

/// The members that a spawn request takes over from its arguments.
fn copy_spawn_members(args: &Json) -> (r: Fields)
    ensures
        json::distinct(r@),
        forall|k: Seq<char>| #[trigger]
            json::member_from(r@, k, 0) == (if is_spawn_key(k) {
                json::member(args@, k)
            } else {
                None
            }),
{
    let out = copy_member(Fields::new(), args, "task");
    let out = copy_member(out, args, "label");
    let out = copy_member(out, args, "mode");
    let out = copy_member(out, args, "allowed_tools");
    let out = copy_member(out, args, "context");
    let out = copy_member(out, args, "model");
    let out = copy_member(out, args, "context_window");
    let out = copy_member(out, args, "additional_instructions");
    let out = copy_member(out, args, "workflow");
    let out = copy_member(out, args, "backend");
    let out = copy_member(out, args, "agent_mcp_tool_name");
    let out = copy_member(out, args, "agent_definition_id");
    copy_member(out, args, "role")
}

/// What a child is told to do.
fn task_text(args: &Json) -> (r: String)
    ensures
        r@ == task_view(args@),
{
    let mut task = match filled_text(args.get_text("task")) {
        Some(t) => t,
        None => match filled_text(args.get_text("message")) {
            Some(t) => t,
            None => render_json(args),
        },
    };
    let items = codex_items_text(args);
    assert(items.len() == items_view(args@).len());
    if items.len() > 0 {
        task.append("\n\nItems:\n");
        task.append(&join(&items, "\n"));
    }
    task
}

/// Whether a role argument says nothing.
fn blank_role(role: Option<&Json>) -> (r: bool)
    ensures
        r == is_blank_role(json::opt_json(role)),
{
    match role {
        None => true,
        Some(Json::Null) => true,
        Some(Json::Text(s)) => {
            let t = trim(s);
            t.as_str().is_empty()
        },
        Some(_) => false,
    }
}

/// The role that a spawn request carries.
fn role_name(registry: &RoleRegistry, args: &Json, role: Option<&RoleTemplate>) -> (r: Option<
    Json,
>)
    ensures
        (match r {
            Some(j) => Some(j@),
            None => None,
        }) == role_member(*registry, args@, deref_role(role)),
{
    if let Some(t) = role {
        return Some(text_json(&t.name));
    }
    let given = args.get("role");
    if !blank_role(given) {
        return match given {
            Some(v) => Some(v.copy()),
            None => None,
        };
    }
    match args.get_text("agent_type") {
        Some(a) => match registry.for_codex_agent_type(a) {
            Some(t) => Some(text_json(&t.name)),
            None => None,
        },
        None => None,
    }
}

/// The tools that a spawn request carries under a role.
fn role_tools(args: &Json, t: &RoleTemplate) -> (r: Option<Json>)
    ensures
        (match r {
            Some(j) => Some(j@),
            None => None,
        }) == tools_member(args@, Some(*t)),
{
    broadcast use json::lemma_array_view;

    if let Some(given) = args.get("allowed_tools") {
        if let Json::Array(v) = given {
            assert(array_member(args@, "allowed_tools"@) == Some(text::views(v@)));
            if v.len() > 0 {
                return Some(given.copy());
            }
        }
    }
    if filled_text(args.get_text("agent_definition_id")).is_some() {
        None
    } else {
        Some(texts_json(&t.spawn_tools))
    }
}

/// The instructions that a spawn request adds to those of the caller.
fn spawn_instructions(args: &Json) -> (r: Option<String>)
    ensures
        text::opt(r) == instructions(args@),
{
    let mut extra = match args.get_text("additional_instructions") {
        Some(s) => Some(s.clone()),
        None => None,
    };
    if let Some(t) = filled_text(args.get_text("agent_type")) {
        extra = append_instruction(extra, cat3("Requested Codex agent_type: ", &t, "."));
    }
    if let Some(t) = filled_text(args.get_text("reasoning_effort")) {
        extra = append_instruction(extra, cat3("Requested reasoning_effort: ", &t, "."));
    }
    if let Some(Json::Bool(true)) = args.get("fork_context") {
        extra = append_instruction(
            extra,
            "Fork current parent context if the runtime has a child context manager bound."
                .to_owned(),
        );
    }
    extra
}

/// The members with `key` set, or without it.
fn set_member(out: Fields, key: &str, value: Option<Json>) -> (r: Fields)
    requires
        json::distinct(out@),
    ensures
        json::distinct(r@),
        forall|k: Seq<char>| #[trigger]
            json::member_from(r@, k, 0) == (if k == key@ {
                match value {
                    Some(j) => Some(j@),
                    None => None,
                }
            } else {
                json::member_from(out@, k, 0)
            }),
{
    match value {
        Some(v) => {
            proof {
                json::lemma_put(out@, key@, v@);
            }
            out.put(key, v)
        },
        None => {
            proof {
                json::lemma_without_all(out@, key@);
            }
            out.without(key)
        },
    }
}

/// Makes a spawn request of the loose arguments of a caller: the task is filled in, a resolved
/// role goes in by its canonical name and with its tools, and hints of the caller become
/// instructions.
pub fn normalize_spawn_agent_args_with_role(
    registry: &RoleRegistry,
    args: &Json,
    role: Option<&RoleTemplate>,
) -> (r: Json)
    ensures
        is_spawn_request(*registry, args@, deref_role(role), r@),
{
    proof {
        lemma_spawn_keys_differ();
    }
    let out = copy_spawn_members(args);
    let out = set_member(out, "task", Some(Json::Text(task_text(args))));
    let out = if args.get("mode").is_none() {
        set_member(out, "mode", Some(text_json("background")))
    } else {
        out
    };
    let out = if args.get("label").is_none() {
        match filled_text(args.get_text("agent_type")) {
            Some(t) => set_member(out, "label", Some(Json::Text(cat("codex-", &t)))),
            None => out,
        }
    } else {
        out
    };
    let out = set_member(out, "role", role_name(registry, args, role));
    let out = match role {
        Some(t) => set_member(out, "allowed_tools", role_tools(args, t)),
        None => out,
    };
    let out = match spawn_instructions(args) {
        Some(extra) => set_member(out, "additional_instructions", Some(Json::Text(extra))),
        None => out,
    };
    let ghost fields = out@;
    let r = out.object();
    assert forall|key: Seq<char>| #[trigger]
        json::member(r@, key) == spawn_member(*registry, args@, deref_role(role), key) by {
        assert(json::member(r@, key) == json::member_from(fields, key, 0));
    }
    r
}

/// Under a resolved role a spawn request carries the canonical name of the role, whatever
/// spelling the caller used.
pub proof fn resolved_role_is_canonical(
    registry: RoleRegistry,
    args: JsonView,
    t: RoleTemplate,
    request: JsonView,
)
    requires
        is_spawn_request(registry, args, Some(t), request),
    ensures
        json::member(request, "role"@) == Some(JsonView::Text(t.name@)),
{
    lemma_spawn_keys_differ();
}

/// Under a role an empty list of tools is no override: the request never carries one unless
/// the role itself has no tools.
pub proof fn empty_tools_never_override_a_role(
    registry: RoleRegistry,
    args: JsonView,
    t: RoleTemplate,
    request: JsonView,
)
    requires
        is_spawn_request(registry, args, Some(t), request),
        !has_own_tools(args),
    ensures
        has_manifest(args) ==> json::member(request, "allowed_tools"@) is None,
        !has_manifest(args) ==> json::member(request, "allowed_tools"@) == Some(
            json::texts_view(text::views(t.spawn_tools@)),
        ),
{
    lemma_spawn_keys_differ();
}

/// A list of tools that the caller gives goes through as it is, under any role.
pub proof fn own_tools_win(
    registry: RoleRegistry,
    args: JsonView,
    role: Option<RoleTemplate>,
    request: JsonView,
)
    requires
        is_spawn_request(registry, args, role, request),
        has_own_tools(args),
    ensures
        json::member(request, "allowed_tools"@) == json::member(args, "allowed_tools"@),
{
    lemma_spawn_keys_differ();
}

/// A role argument that says nothing is as good as none: the role of the agent type is
/// resolved.
pub proof fn blank_role_defers_to_agent_type(registry: RoleRegistry, args: JsonView)
    requires
        is_blank_role(json::member(args, "role"@)),
    ensures
        requested_role(registry, args) == (match json::filled(
            json::text_member(args, "agent_type"@),
        ) {
            Some(t) => Ok::<Option<RoleTemplate>, Seq<char>>(registry.typed(t)),
            None => Ok(None),
        }),
{
}

/// The canonical form of a role name is its own canonical form.
pub proof fn canonical_role_is_stable(s: Seq<char>)
    ensures
        canonical_role(canonical_role(s)) == canonical_role(s),
{
    let t = text::trim_view(s);
    let c = canonical_role(s);
    text::lemma_trim_ends(s);
    if t.len() > 0 {
        assert(c[0] == canonical_char(t[0]));
        assert(c.last() == canonical_char(t.last()));
    }
    text::lemma_trim_nothing(c);
    assert(canonical_role(c) =~= c);
}

/// Spellings of one role have one canonical form: white space around a name, the case of its
/// ASCII letters, and hyphens or spaces for underscores make no difference.
pub proof fn spellings_share_a_canonical_form(a: Seq<char>, b: Seq<char>)
    requires
        text::trim_view(a).len() == text::trim_view(b).len(),
        forall|i: int|
            0 <= i < text::trim_view(a).len() ==> canonical_char(#[trigger] text::trim_view(a)[i])
                == canonical_char(text::trim_view(b)[i]),
    ensures
        canonical_role(a) == canonical_role(b),
{
    assert(canonical_role(a) =~= canonical_role(b));
}

} // verus!
