//! How subagents are asked for, started, waited for and answered about.

use vstd::prelude::*;

use crate::agents;
use crate::agents::{RoleRegistry, RoleTemplate};
use crate::codec;
use crate::delegate;
use crate::json;
use crate::json::JsonView;
use crate::laws::checks;
use crate::spawn_agent;
use crate::tasks;
use crate::tasks::{Relaunch, TaskRecord, TaskStatus};
use crate::text;

verus! {

/// The role of a name is the first that has it, and there is one exactly where one has it; that of
/// an agent type is the first that the type stands for.
pub proof fn roles_are_found_by_name_and_type(registry: RoleRegistry, name: Seq<char>, i: int)
    requires
        0 <= i < registry.templates@.len(),
    ensures
        registry.templates@[i].name@ == name && (forall|k: int|
            0 <= k < i ==> (#[trigger] registry.templates@[k]).name@ != name) ==> registry.named(
            name,
        ) == Some(registry.templates@[i]),
        registry.named(name) matches Some(t) ==> t.name@ == name,
        (forall|k: int|
            0 <= k < registry.templates@.len() ==> (#[trigger] registry.templates@[k]).name@
                != name) ==> registry.named(name) is None,
        text::views(registry.templates@[i].agent_types@).contains(name) && (forall|k: int|
            0 <= k < i ==> !text::views((#[trigger] registry.templates@[k]).agent_types@).contains(
                name,
            )) ==> registry.typed(name) == Some(registry.templates@[i]),
        registry.typed(name) matches Some(t) ==> text::views(t.agent_types@).contains(name),
{
    let v = registry.templates@;
    lemma_named(v, name, 0);
    lemma_typed(v, name, 0);
    if v[i].name@ == name && (forall|k: int| 0 <= k < i ==> (#[trigger] v[k]).name@ != name) {
        lemma_named_at(v, name, 0, i);
    }
    if text::views(v[i].agent_types@).contains(name) && (forall|k: int|
        0 <= k < i ==> !text::views((#[trigger] v[k]).agent_types@).contains(name)) {
        lemma_typed_at(v, name, 0, i);
    }
}

proof fn lemma_named(v: Seq<RoleTemplate>, name: Seq<char>, i: int)
    requires
        0 <= i <= v.len(),
    ensures
        agents::named_from(v, name, i) matches Some(k) ==> i <= k < v.len() && v[k].name@ == name,
    decreases v.len() - i,
{
    if i < v.len() && v[i].name@ != name {
        lemma_named(v, name, i + 1);
    }
}

proof fn lemma_named_at(v: Seq<RoleTemplate>, name: Seq<char>, i: int, at: int)
    requires
        0 <= i <= at < v.len(),
        v[at].name@ == name,
        forall|k: int| i <= k < at ==> (#[trigger] v[k]).name@ != name,
    ensures
        agents::named_from(v, name, i) == Some(at),
    decreases at - i,
{
    if i < at {
        assert(v[i].name@ != name);
        lemma_named_at(v, name, i + 1, at);
    }
}

proof fn lemma_typed(v: Seq<RoleTemplate>, name: Seq<char>, i: int)
    requires
        0 <= i <= v.len(),
    ensures
        agents::typed_from(v, name, i) matches Some(k) ==> i <= k < v.len() && text::views(
            v[k].agent_types@,
        ).contains(name),
    decreases v.len() - i,
{
    if i < v.len() && !text::views(v[i].agent_types@).contains(name) {
        lemma_typed(v, name, i + 1);
    }
}

proof fn lemma_typed_at(v: Seq<RoleTemplate>, name: Seq<char>, i: int, at: int)
    requires
        0 <= i <= at < v.len(),
        text::views(v[at].agent_types@).contains(name),
        forall|k: int|
            i <= k < at ==> !text::views((#[trigger] v[k]).agent_types@).contains(name),
    ensures
        agents::typed_from(v, name, i) == Some(at),
    decreases at - i,
{
    if i < at {
        assert(!text::views(v[i].agent_types@).contains(name));
        lemma_typed_at(v, name, i + 1, at);
    }
}

/// A role is asked for by its name, without the white space around it, in any case, with hyphens or
/// blanks in place of underscores.
pub proof fn roles_are_spelled_freely(s: Seq<char>, i: int)
    requires
        0 <= i < text::trim_view(s).len(),
    ensures
        ({
            let t = text::trim_view(s);
            let c = agents::canonical_role(s);
            &&& c.len() == t.len()
            &&& 'A' <= t[i] <= 'Z' ==> c[i] as int == t[i] as int + 32
            &&& t[i] == '-' || t[i] == ' ' || t[i] == '_' ==> c[i] == '_'
            &&& 'a' <= t[i] <= 'z' || '0' <= t[i] <= '9' ==> c[i] == t[i]
        }),
{
    let t = text::trim_view(s);
    if 'A' <= t[i] <= 'Z' {
        let n = t[i] as u32;
        assert(65 <= n <= 90);
        assert(((n + 32) as u32) as char as int == n + 32);
    }
}

/// A request that names a role asks for that one, and is refused where there is none, whatever its
/// agent type is; one that names none asks for the role of its agent type, if there is such.
pub proof fn requests_ask_for_a_role(registry: RoleRegistry, args: JsonView, s: Seq<char>)
    ensures
        json::text_member(args, "role"@) == Some(s) && text::trim_view(s).len() > 0 ==> {
            let asked = agents::requested_role(registry, args);
            &&& registry.named(agents::canonical_role(s)) is Some ==> asked == Ok::<
                Option<RoleTemplate>,
                Seq<char>,
            >(registry.named(agents::canonical_role(s)))
            &&& registry.named(agents::canonical_role(s)) is None ==> asked is Err
        },
        (json::text_member(args, "role"@) is None || text::trim_view(
            json::text_member(args, "role"@)->0,
        ).len() == 0) ==> {
            let asked = agents::requested_role(registry, args);
            &&& json::text_member(args, "agent_type"@) == Some(s) && text::trim_view(s).len() > 0
                ==> asked == Ok::<Option<RoleTemplate>, Seq<char>>(
                registry.typed(text::trim_view(s)),
            )
            &&& json::text_member(args, "agent_type"@) is None ==> asked == Ok::<
                Option<RoleTemplate>,
                Seq<char>,
            >(None)
        },
{
}

/// The answer to an unknown role is a failure that names every role there is.
pub proof fn unknown_roles_are_answered_with_the_known_ones(
    registry: RoleRegistry,
    name: Seq<char>,
    i: int,
)
    requires
        0 <= i < registry.templates@.len(),
    ensures
        ({
            let r = agents::unknown_role(registry, name);
            let known = registry.templates@.map_values(|t: RoleTemplate| t.name@);
            &&& !r.success
            &&& text::has(r.output, registry.templates@[i].name@)
            &&& r.structured_metadata is Some
            &&& checks::holds(
                r.structured_metadata->0,
                "registered_roles"@,
                json::texts_view(known),
            )
            &&& checks::holds(r.structured_metadata->0, "role"@, JsonView::Text(name))
            &&& checks::holds(r.structured_metadata->0, "error"@, JsonView::Text("unknown_role"@))
        }),
        ({
            let r = delegate::unknown_role(registry, name);
            let known = registry.templates@.map_values(|t: RoleTemplate| t.name@);
            &&& !r.success
            &&& r.structured_metadata is Some
            &&& checks::holds(r.structured_metadata->0, "canonical_roles"@, json::texts_view(known))
            &&& checks::holds(r.structured_metadata->0, "role"@, JsonView::Text(name))
        }),
{
    let names = agents::role_names(registry.templates@);
    assert(names =~= registry.templates@.map_values(|t: RoleTemplate| t.name@));
    let r = agents::unknown_role(registry, name);
    let lead = "spawn_agent: unknown role "@ + text::debug_text(name) + "; registered roles: "@;
    let list = text::join_view(names, ", "@);
    text::lemma_join_has(names, ", "@, i);
    text::lemma_has_within(lead, list, Seq::empty(), names[i]);
    assert(r.output =~= lead + list + Seq::<char>::empty());
    let m = (r.structured_metadata->0)->Object_0;
    assert(m[1] == ("error"@, JsonView::Text("unknown_role"@)));
    assert(m[2] == ("role"@, JsonView::Text(name)));
    assert(m[3] == ("registered_roles"@, json::texts_view(names)));
    assert(m.contains(m[1]) && m.contains(m[2]) && m.contains(m[3]));
    let d = (delegate::unknown_role(registry, name).structured_metadata->0)->Object_0;
    assert(d[3] == ("role"@, JsonView::Text(name)));
    assert(d[4] == ("canonical_roles"@, json::texts_view(names)));
    assert(d.contains(d[3]) && d.contains(d[4]));
}

/// An item of a request is told by its kind and by the first of its text, name, path and image; one
/// without any of them, or with a blank one, is passed over.
pub proof fn items_are_told_in_lines(item: JsonView, s: Seq<char>, kind: Seq<char>)
    requires
        text::trim_view(s).len() > 0,
    ensures
        json::text_member(item, "text"@) == Some(s) && json::text_member(item, "type"@) == Some(kind)
            ==> agents::item_line(item) == Some("["@ + kind + "] "@ + text::trim_view(s)),
        json::text_member(item, "text"@) == Some(s) && json::text_member(item, "type"@) is None
            ==> agents::item_line(item) == Some("[item] "@ + text::trim_view(s)),
        json::member(item, "text"@) is None && json::text_member(item, "name"@) == Some(s)
            && json::text_member(item, "type"@) == Some(kind) ==> agents::item_line(item) == Some(
            "["@ + kind + "] "@ + text::trim_view(s),
        ),
        json::member(item, "text"@) is None && json::member(item, "name"@) is None
            && json::text_member(item, "path"@) == Some(s) && json::text_member(item, "type"@)
            == Some(kind) ==> agents::item_line(item) == Some(
            "["@ + kind + "] "@ + text::trim_view(s),
        ),
        json::member(item, "text"@) is None && json::member(item, "name"@) is None && json::member(
            item,
            "path"@,
        ) is None && json::text_member(item, "image_url"@) == Some(s) && json::text_member(
            item,
            "type"@,
        ) == Some(kind) ==> agents::item_line(item) == Some(
            "["@ + kind + "] "@ + text::trim_view(s),
        ),
        json::member(item, "text"@) is None && json::member(item, "name"@) is None && json::member(
            item,
            "path"@,
        ) is None && json::member(item, "image_url"@) is None ==> agents::item_line(item) is None,
{
    reveal_strlit("[");
    reveal_strlit("item");
    reveal_strlit("] ");
    reveal_strlit("[item] ");
    assert("["@ + "item"@ + "] "@ + text::trim_view(s) =~= "[item] "@ + text::trim_view(s));
}

/// A child is told its task, else the message, else the whole request; and below it the items.
pub proof fn children_are_told_their_task(args: JsonView, s: Seq<char>, items: Seq<JsonView>, i: int)
    requires
        json::member(args, "items"@) == Some(JsonView::Array(items)),
        0 <= i < items.len(),
        agents::item_line(items[i]) is Some,
    ensures
        ({
            let told = agents::task_view(args);
            &&& text::has(told, agents::item_line(items[i])->0)
            &&& json::text_member(args, "task"@) == Some(s) && text::trim_view(s).len() > 0
                ==> text::starts(told, text::trim_view(s) + "\n\nItems:\n"@)
            &&& json::text_member(args, "task"@) is None && json::text_member(args, "message"@)
                == Some(s) && text::trim_view(s).len() > 0 ==> text::starts(
                told,
                text::trim_view(s) + "\n\nItems:\n"@,
            )
            &&& json::text_member(args, "task"@) is None && json::text_member(args, "message"@)
                is None ==> text::starts(told, codec::json_text(args) + "\n\nItems:\n"@)
        }),
{
    let lines = agents::item_lines(items, items.len() as int);
    lemma_item_told(items, items.len() as int, i);
    let k = choose|k: int| 0 <= k < lines.len() && lines[k] == agents::item_line(items[i])->0;
    let told = agents::task_view(args);
    let body = text::join_view(lines, "\n"@);
    let lead = match json::filled(json::text_member(args, "task"@)) {
        Some(t) => t,
        None => match json::filled(json::text_member(args, "message"@)) {
            Some(t) => t,
            None => codec::json_text(args),
        },
    };
    let front = lead + "\n\nItems:\n"@;
    assert(told =~= front + body + Seq::<char>::empty());
    text::lemma_join_has(lines, "\n"@, k);
    text::lemma_has_within(front, body, Seq::empty(), lines[k]);
    assert(told.subrange(0, front.len() as int) =~= front);
}

proof fn lemma_item_told(items: Seq<JsonView>, n: int, i: int)
    requires
        0 <= i < n <= items.len(),
        agents::item_line(items[i]) is Some,
    ensures
        exists|k: int|
            0 <= k < agents::item_lines(items, n).len() && #[trigger] agents::item_lines(
                items,
                n,
            )[k] == agents::item_line(items[i])->0,
    decreases n,
{
    let now = agents::item_lines(items, n);
    let before = agents::item_lines(items, n - 1);
    if i == n - 1 {
        assert(now[now.len() - 1] == agents::item_line(items[i])->0);
    } else {
        lemma_item_told(items, n - 1, i);
        let k = choose|k: int|
            0 <= k < before.len() && #[trigger] before[k] == agents::item_line(items[i])->0;
        assert(now[k] == before[k]);
    }
}

/// A task without items is told alone.
pub proof fn tasks_without_items_are_told_alone(args: JsonView, s: Seq<char>)
    requires
        json::member(args, "items"@) is None,
    ensures
        json::text_member(args, "task"@) == Some(s) && text::trim_view(s).len() > 0
            ==> agents::task_view(args) == text::trim_view(s),
{
}

/// A started child runs in the background unless the request says otherwise; it is labelled by its
/// agent type unless it has a label, and carries the context, the model and the other settings of
/// the request as they are. A name that no child knows is not carried.
pub proof fn requests_carry_their_settings(
    registry: RoleRegistry,
    args: JsonView,
    role: Option<RoleTemplate>,
    request: JsonView,
    t: Seq<char>,
    v: JsonView,
)
    requires
        agents::is_spawn_request(registry, args, role, request),
    ensures
        json::member(request, "task"@) == Some(JsonView::Text(agents::task_view(args))),
        json::member(args, "mode"@) == Some(v) ==> json::member(request, "mode"@) == Some(v),
        json::member(args, "mode"@) is None ==> json::member(request, "mode"@) == Some(
            JsonView::Text("background"@),
        ),
        json::member(args, "label"@) == Some(v) ==> json::member(request, "label"@) == Some(v),
        json::member(args, "label"@) is None && json::text_member(args, "agent_type"@) == Some(t)
            && text::trim_view(t).len() > 0 ==> json::member(request, "label"@) == Some(
            JsonView::Text("codex-"@ + text::trim_view(t)),
        ),
        json::member(request, "context"@) == json::member(args, "context"@),
        json::member(request, "model"@) == json::member(args, "model"@),
        json::member(request, "backend"@) == json::member(args, "backend"@),
        json::member(request, "workflow"@) == json::member(args, "workflow"@),
        json::member(request, "reasoning_effort"@) is None,
        json::member(request, "agent_type"@) is None,
        json::member(request, "items"@) is None,
{
    reveal_strlit("task");
    reveal_strlit("mode");
    reveal_strlit("label");
    reveal_strlit("role");
    reveal_strlit("allowed_tools");
    reveal_strlit("additional_instructions");
    reveal_strlit("context");
    reveal_strlit("model");
    reveal_strlit("backend");
    reveal_strlit("workflow");
    reveal_strlit("reasoning_effort");
    reveal_strlit("agent_type");
    reveal_strlit("items");
    reveal_strlit("context_window");
    reveal_strlit("agent_mcp_tool_name");
    reveal_strlit("agent_definition_id");
    assert("task"@[0] == 't' && "mode"@[0] == 'm' && "role"@[0] == 'r');
    assert("label"@[0] == 'l' && "model"@[0] == 'm' && "items"@[0] == 'i');
    assert("context"@[0] == 'c' && "backend"@[0] == 'b');
    assert("task"@.len() == 4 && "mode"@.len() == 4 && "role"@.len() == 4 && "label"@.len() == 5
        && "model"@.len() == 5 && "items"@.len() == 5);
    assert("context"@.len() == 7 && "backend"@.len() == 7 && "workflow"@.len() == 8
        && "agent_type"@.len() == 10);
    assert("allowed_tools"@.len() == 13 && "context_window"@.len() == 14
        && "reasoning_effort"@.len() == 16 && "agent_mcp_tool_name"@.len() == 19
        && "agent_definition_id"@.len() == 19 && "additional_instructions"@.len() == 23);
    assert(json::member(request, "task"@) == agents::spawn_member(registry, args, role, "task"@));
    assert(json::member(request, "mode"@) == agents::spawn_member(registry, args, role, "mode"@));
    assert(json::member(request, "label"@) == agents::spawn_member(registry, args, role, "label"@));
    assert(json::member(request, "context"@) == agents::spawn_member(
        registry,
        args,
        role,
        "context"@,
    ));
    assert(json::member(request, "model"@) == agents::spawn_member(registry, args, role, "model"@));
    assert(json::member(request, "backend"@) == agents::spawn_member(
        registry,
        args,
        role,
        "backend"@,
    ));
    assert(json::member(request, "workflow"@) == agents::spawn_member(
        registry,
        args,
        role,
        "workflow"@,
    ));
    assert(json::member(request, "reasoning_effort"@) == agents::spawn_member(
        registry,
        args,
        role,
        "reasoning_effort"@,
    ));
    assert(json::member(request, "agent_type"@) == agents::spawn_member(
        registry,
        args,
        role,
        "agent_type"@,
    ));
    assert(json::member(request, "items"@) == agents::spawn_member(registry, args, role, "items"@));
}

/// What a request asks of the agent type, of the effort and of the context is told to the child in
/// words, below the instructions of the request itself.
pub proof fn wishes_are_told_as_instructions(args: JsonView, own: Seq<char>, t: Seq<char>, e: Seq<char>)
    requires
        json::text_member(args, "additional_instructions"@) == Some(own),
        text::trim_view(own).len() > 0,
        json::text_member(args, "agent_type"@) == Some(t),
        text::trim_view(t).len() > 0,
        json::text_member(args, "reasoning_effort"@) == Some(e),
        text::trim_view(e).len() > 0,
    ensures
        ({
            let two = own + "\n"@ + ("Requested Codex agent_type: "@ + text::trim_view(t) + "."@)
                + "\n"@ + ("Requested reasoning_effort: "@ + text::trim_view(e) + "."@);
            &&& json::member(args, "fork_context"@) != Some(JsonView::Bool(true))
                ==> agents::instructions(args) == Some(two)
            &&& json::member(args, "fork_context"@) == Some(JsonView::Bool(true))
                ==> agents::instructions(args) == Some(
                two + "\n"@
                    + "Fork current parent context if the runtime has a child context manager bound."@,
            )
        }),
{
    reveal_strlit("Requested Codex agent_type: ");
    reveal_strlit("Requested reasoning_effort: ");
    reveal_strlit(
        "Fork current parent context if the runtime has a child context manager bound.",
    );
    reveal_strlit("\n");
    let a = "Requested Codex agent_type: "@ + text::trim_view(t) + "."@;
    let b = "Requested reasoning_effort: "@ + text::trim_view(e) + "."@;
    let f = "Fork current parent context if the runtime has a child context manager bound."@;
    lemma_filled_text(a, 0);
    lemma_filled_text(b, 0);
    lemma_filled_text(f, 0);
    let one = own + "\n"@ + a;
    let k = lemma_some_solid(own);
    assert(one[k] == own[k]);
    lemma_filled_text(one, k);
    let two = one + "\n"@ + b;
    assert(two[k] == own[k]);
    lemma_filled_text(two, k);
}

proof fn lemma_filled_text(s: Seq<char>, i: int)
    requires
        0 <= i < s.len(),
        !text::white(s[i]),
    ensures
        text::trim_view(s).len() > 0,
{
    lemma_start_keeps(s, i);
    let t = text::trim_start_view(s);
    let j = i - (s.len() - t.len());
    lemma_end_keeps(t, j);
}

proof fn lemma_start_keeps(s: Seq<char>, i: int)
    requires
        0 <= i < s.len(),
        !text::white(s[i]),
    ensures
        ({
            let t = text::trim_start_view(s);
            let j = i - (s.len() - t.len());
            0 <= j < t.len() <= s.len() && t[j] == s[i]
        }),
    decreases s.len(),
{
    if text::white(s[0]) {
        assert(s.drop_first()[i - 1] == s[i]);
        lemma_start_keeps(s.drop_first(), i - 1);
    }
}

proof fn lemma_end_keeps(s: Seq<char>, i: int)
    requires
        0 <= i < s.len(),
        !text::white(s[i]),
    ensures
        text::trim_end_view(s).len() > i,
    decreases s.len(),
{
    if text::white(s.last()) {
        assert(s.drop_last()[i] == s[i]);
        lemma_end_keeps(s.drop_last(), i);
    }
}

proof fn lemma_some_solid(s: Seq<char>) -> (k: int)
    requires
        text::trim_view(s).len() > 0,
    ensures
        0 <= k < s.len(),
        !text::white(s[k]),
{
    if forall|i: int| 0 <= i < s.len() ==> text::white(#[trigger] s[i]) {
        crate::laws::texts::trimming_takes_white_space_alone(s, Seq::empty(), Seq::empty());
        assert(s + Seq::<char>::empty() + Seq::<char>::empty() =~= s);
    }
    choose|k: int| 0 <= k < s.len() && !text::white(#[trigger] s[k])
}

/// A task is over once it completed, failed or was cancelled, and not before; each status has its
/// own word.
pub proof fn tasks_are_over_at_the_end()
    ensures
        tasks::is_over(TaskStatus::Completed) && tasks::is_over(TaskStatus::Failed)
            && tasks::is_over(TaskStatus::Cancelled),
        !tasks::is_over(TaskStatus::Spawned) && !tasks::is_over(TaskStatus::Running),
        tasks::status_view(TaskStatus::Spawned) == "spawned"@,
        tasks::status_view(TaskStatus::Running) == "running"@,
        tasks::status_view(TaskStatus::Completed) == "completed"@,
        tasks::status_view(TaskStatus::Failed) == "failed"@,
        tasks::status_view(TaskStatus::Cancelled) == "cancelled"@,
{
}

/// The target of a call goes before its agent id, and both before its list of targets, of which the
/// first counts; a call about several tasks is about the list and the one that is named besides.
pub proof fn calls_are_about_their_targets(
    t: Option<Seq<char>>,
    a: Option<Seq<char>>,
    list: Seq<Seq<char>>,
)
    ensures
        t is Some ==> tasks::sole_target(t, a, list) == t,
        t is None && a is Some ==> tasks::sole_target(t, a, list) == a,
        t is None && a is None && list.len() > 0 ==> tasks::sole_target(t, a, list) == Some(
            list[0],
        ),
        t is None && a is None && list.len() == 0 ==> tasks::sole_target(t, a, list) is None,
        t is Some ==> tasks::all_targets(t, a, list) == list + seq![t->0],
        t is None && a is Some ==> tasks::all_targets(t, a, list) == list + seq![a->0],
        t is None && a is None ==> tasks::all_targets(t, a, list) == list,
{
    if t is Some {
        assert(list.push(t->0) =~= list + seq![t->0]);
    } else if a is Some {
        assert(list.push(a->0) =~= list + seq![a->0]);
    }
}

/// A wait is as long as it is asked for, up to an hour; half a minute for tasks and five minutes for
/// a delegation where it is not said.
pub proof fn waits_are_bounded(ms: u64, default: u64, max: u64)
    ensures
        ms <= max ==> tasks::bounded_timeout(Some(ms), default, max) == ms,
        ms > max ==> tasks::bounded_timeout(Some(ms), default, max) == max,
        default <= max ==> tasks::bounded_timeout(None, default, max) == default,
        tasks::MAX_WAIT_MS == 3_600_000,
        tasks::DEFAULT_WAIT_MS == 30_000,
        delegate::DEFAULT_DELEGATE_TIMEOUT_MS == 300_000,
        delegate::MAX_DELEGATE_TIMEOUT_MS == 3_600_000,
{
}

/// The entry of a task tells its id, its status, whether it is over, its error and its files; that of
/// a task that is not known says so.
pub proof fn statuses_tell_of_their_task(id: Seq<char>, t: TaskRecord)
    ensures
        ({
            let e = tasks::status_entry(id, Some(t));
            &&& checks::holds(e, "agent_id"@, JsonView::Text(id))
            &&& checks::holds(e, "status"@, JsonView::Text(tasks::status_view(t.status)))
            &&& checks::holds(e, "runtime_state"@, JsonView::Text(t.runtime_state@))
            &&& checks::holds(e, "terminal"@, JsonView::Bool(tasks::is_over(t.status)))
            &&& checks::holds(e, "error"@, json::text_or_null(text::opt(t.error)))
            &&& checks::holds(e, "output_files"@, json::texts_view(text::views(t.output_files@)))
            &&& checks::holds(
                e,
                "child_session_key"@,
                json::text_or_null(text::opt(t.child_session_key)),
            )
        }),
        ({
            let e = tasks::status_entry(id, None);
            &&& checks::holds(e, "agent_id"@, JsonView::Text(id))
            &&& checks::holds(e, "status"@, JsonView::Text("unknown"@))
            &&& checks::holds(e, "terminal"@, JsonView::Bool(true))
        }),
{
    let f = tasks::status_entry(id, Some(t))->Object_0;
    assert(f[0] == ("agent_id"@, JsonView::Text(id)));
    assert(f[1] == ("status"@, JsonView::Text(tasks::status_view(t.status))));
    assert(f[2] == ("runtime_state"@, JsonView::Text(t.runtime_state@)));
    assert(f[3] == ("terminal"@, JsonView::Bool(tasks::is_over(t.status))));
    assert(f[4] == ("error"@, json::text_or_null(text::opt(t.error))));
    assert(f[5] == ("output_files"@, json::texts_view(text::views(t.output_files@))));
    assert(f[6] == ("child_session_key"@, json::text_or_null(text::opt(t.child_session_key))));
    assert(f.contains(f[0]) && f.contains(f[1]) && f.contains(f[2]) && f.contains(f[3])
        && f.contains(f[4]) && f.contains(f[5]) && f.contains(f[6]));
    let g = tasks::status_entry(id, None)->Object_0;
    assert(g[0] == ("agent_id"@, JsonView::Text(id)));
    assert(g[1] == ("status"@, JsonView::Text("unknown"@)));
    assert(g[2] == ("terminal"@, JsonView::Bool(true)));
    assert(g.contains(g[0]) && g.contains(g[1]) && g.contains(g[2]));
}

/// A wait answers with an entry for each task, in order; all of them have settled exactly where none
/// that is known still runs.
pub proof fn waits_answer_for_every_task(
    targets: Seq<Seq<char>>,
    found: Seq<Option<TaskRecord>>,
    i: int,
)
    requires
        found.len() == targets.len(),
        0 <= i < targets.len(),
    ensures
        tasks::waited_view(targets, found) == codec::json_text(
            JsonView::Object(
                seq![
                    (
                        "agents"@,
                        JsonView::Array(
                            Seq::new(
                                targets.len(),
                                |k: int| tasks::status_entry(targets[k], found[k]),
                            ),
                        ),
                    ),
                ],
            ),
        ),
        found[i] matches Some(t) && !tasks::is_over(t.status) ==> !tasks::all_settled(found),
        (forall|k: int|
            0 <= k < found.len() ==> ((#[trigger] found[k]) is None || tasks::is_over(
                (found[k]->0).status,
            ))) ==> tasks::all_settled(found),
{
    let list = Seq::new(targets.len(), |k: int| tasks::status_entry(targets[k], found[k]));
    assert(tasks::statuses_view(targets, found) =~= list);
    if found[i] is Some && !tasks::is_over((found[i]->0).status) {
        assert(!tasks::settled(found[i]));
    }
}

/// What is sent to a task is kept on it with its time, beside the input that it had first; the answer
/// says that it was recorded and not delivered.
pub proof fn sent_input_is_recorded(
    id: Seq<char>,
    request: JsonView,
    now: Seq<char>,
    first: Option<JsonView>,
    status: TaskStatus,
)
    ensures
        ({
            let kept = tasks::recorded_view(id, request, now, first);
            &&& first matches Some(input) ==> checks::holds(kept, "original_tool_input"@, input)
            &&& exists|sent: JsonView|
                {
                    &&& #[trigger] checks::holds(kept, "last_codex_send_input"@, sent)
                    &&& checks::holds(sent, "request"@, request)
                    &&& checks::holds(sent, "agent_id"@, JsonView::Text(id))
                    &&& checks::holds(sent, "recorded_at"@, JsonView::Text(now))
                }
        }),
        ({
            let r = tasks::sent_view(id, status);
            &&& r.success
            &&& exists|body: JsonView|
                {
                    &&& r.output == #[trigger] codec::json_text(body)
                    &&& checks::holds(body, "agent_id"@, JsonView::Text(id))
                    &&& checks::holds(body, "status"@, JsonView::Text(tasks::status_view(status)))
                    &&& checks::holds(body, "recorded"@, JsonView::Bool(true))
                    &&& checks::holds(body, "delivered"@, JsonView::Bool(false))
                }
        }),
{
    let kept = tasks::recorded_view(id, request, now, first);
    let sent = JsonView::Object(
        seq![
            ("agent_id"@, JsonView::Text(id)),
            ("request"@, request),
            ("recorded_at"@, JsonView::Text(now)),
        ],
    );
    let s = sent->Object_0;
    assert(s[0] == ("agent_id"@, JsonView::Text(id)) && s[1] == ("request"@, request) && s[2] == (
        "recorded_at"@,
        JsonView::Text(now),
    ));
    assert(s.contains(s[0]) && s.contains(s[1]) && s.contains(s[2]));
    let k = kept->Object_0;
    if let Some(input) = first {
        assert(k[0] == ("original_tool_input"@, input) && k[1] == (
            "last_codex_send_input"@,
            sent,
        ));
        assert(k.contains(k[0]) && k.contains(k[1]));
    } else {
        assert(k[0] == ("last_codex_send_input"@, sent));
        assert(k.contains(k[0]));
    }
    assert(checks::holds(kept, "last_codex_send_input"@, sent));
    let body = JsonView::Object(
        seq![
            ("ok"@, JsonView::Bool(true)),
            ("agent_id"@, JsonView::Text(id)),
            ("status"@, JsonView::Text(tasks::status_view(status))),
            ("recorded"@, JsonView::Bool(true)),
            ("delivered"@, JsonView::Bool(false)),
            (
                "message"@,
                JsonView::Text(
                    "Input recorded on the supervised task. Live conversational delivery is not attached to this backend."@,
                ),
            ),
        ],
    );
    let f = body->Object_0;
    assert(f[1] == ("agent_id"@, JsonView::Text(id)));
    assert(f[2] == ("status"@, JsonView::Text(tasks::status_view(status))));
    assert(f[3] == ("recorded"@, JsonView::Bool(true)));
    assert(f[4] == ("delivered"@, JsonView::Bool(false)));
    assert(f.contains(f[1]) && f.contains(f[2]) && f.contains(f[3]) && f.contains(f[4]));
    assert(tasks::sent_view(id, status).output == codec::json_text(body));
}

/// A task that is resumed is answered with its new id; one that still runs is no failure, one that
/// is not known is; and one that is closed is answered with its status.
pub proof fn resumed_and_closed_tasks_are_answered(id: Seq<char>, fresh: String, status: TaskStatus)
    ensures
        tasks::resumed_view(id, Relaunch::Started(fresh)).success,
        tasks::resumed_view(id, Relaunch::Started(fresh)).output == codec::json_text(
            JsonView::Object(
                seq![
                    ("agent_id"@, JsonView::Text(id)),
                    ("resumed_agent_id"@, JsonView::Text(fresh@)),
                    ("status"@, JsonView::Text("spawned"@)),
                ],
            ),
        ),
        tasks::resumed_view(id, Relaunch::StillActive).success,
        !tasks::resumed_view(id, Relaunch::NotFound).success,
        tasks::resumed_view(id, Relaunch::NotFound).output == "unknown agent: "@ + id,
        tasks::closed_view(id, status).success,
        tasks::closed_view(id, status).output == codec::json_text(
            JsonView::Object(
                seq![
                    ("agent_id"@, JsonView::Text(id)),
                    ("status"@, JsonView::Text(tasks::status_view(status))),
                    ("closed"@, JsonView::Bool(true)),
                ],
            ),
        ),
        tasks::unknown_agent(id).output == "unknown agent: "@ + id,
        !tasks::unknown_agent(id).success,
{
}

/// The policy of a child tells its role, the tools that it was given and that these are enforced,
/// unless a manifest may still take some away; the rest is what the role declares.
pub proof fn policies_tell_the_tools(t: RoleTemplate, request: JsonView, id: Seq<char>, tools: Seq<Seq<char>>)
    requires
        json::member(request, "allowed_tools"@) == Some(json::texts_view(tools)),
    ensures
        ({
            let s = spawn_agent::stamp_view(t, request);
            let managed = json::text_member(request, "agent_definition_id"@) == Some(id)
                && text::trim_view(id).len() > 0;
            &&& checks::holds(s, "role"@, JsonView::Text(t.name@))
            &&& checks::holds(s, "allowed_tools"@, json::texts_view(tools))
            &&& checks::holds(s, "declared_sandbox_mode"@, JsonView::Text(t.default_sandbox_mode@))
            &&& checks::holds(
                s,
                "declared_approval_policy"@,
                JsonView::Text(t.default_approval_policy@),
            )
            &&& checks::holds(s, "declared_model_preference"@, JsonView::Text(t.model_preference@))
            &&& managed ==> checks::holds(s, "agent_definition_id"@, JsonView::Text(id))
            &&& exists|p: JsonView|
                {
                    &&& #[trigger] checks::holds(s, "policy_enforcement"@, p)
                    &&& managed ==> checks::holds(
                        p,
                        "allowed_tools"@,
                        JsonView::Text("subject_to_manifest"@),
                    )
                    &&& json::text_member(request, "agent_definition_id"@) is None ==> checks::holds(
                        p,
                        "allowed_tools"@,
                        JsonView::Text("enforced"@),
                    )
                    &&& checks::holds(p, "sandbox_mode"@, JsonView::Text("advisory"@))
                }
        }),
{
    let v = json::texts_view(tools)->Array_0;
    lemma_texts(tools, v, v.len() as int);
    assert(spawn_agent::allowed_view(request) =~= tools) by {
        assert(tools.take(v.len() as int) =~= tools);
    }
    let s = spawn_agent::stamp_view(t, request);
    let f = s->Object_0;
    assert(f[0] == ("role"@, JsonView::Text(t.name@)));
    assert(f[2] == ("allowed_tools"@, json::texts_view(tools)));
    assert(f[4] == ("declared_sandbox_mode"@, JsonView::Text(t.default_sandbox_mode@)));
    assert(f[5] == ("declared_approval_policy"@, JsonView::Text(t.default_approval_policy@)));
    assert(f[6] == ("declared_model_preference"@, JsonView::Text(t.model_preference@)));
    assert(f.contains(f[0]) && f.contains(f[2]) && f.contains(f[4]) && f.contains(f[5])
        && f.contains(f[6]));
    if json::text_member(request, "agent_definition_id"@) == Some(id) && text::trim_view(id).len()
        > 0 {
        assert(f[7] == ("agent_definition_id"@, JsonView::Text(id)));
        assert(f.contains(f[7]));
    }
    let p = f[3].1;
    assert(f.contains(f[3]));
    let g = p->Object_0;
    assert(g.contains(g[0]) && g.contains(g[1]));
    assert(checks::holds(s, "policy_enforcement"@, p));
}

proof fn lemma_texts(tools: Seq<Seq<char>>, v: Seq<JsonView>, n: int)
    requires
        0 <= n <= v.len(),
        v == json::texts_view(tools)->Array_0,
    ensures
        spawn_agent::texts_among(v, n) == tools.take(n),
    decreases n,
{
    if n > 0 {
        lemma_texts(tools, v, n - 1);
        assert(v[n - 1] == JsonView::Text(tools[n - 1]));
        assert(tools.take(n) =~= tools.take(n - 1).push(tools[n - 1]));
    } else {
        assert(tools.take(0) =~= Seq::empty());
    }
}

/// A caller gets the id, the status and the session of the task that its request started, with what
/// the native tool said; the metadata holds the request as it went out and the role.
pub proof fn callers_get_a_handle(
    request: JsonView,
    t: RoleTemplate,
    output: Seq<char>,
    k: TaskRecord,
)
    ensures
        ({
            let r = spawn_agent::spawned_view(request, Some(t), output, Some(k));
            let h = spawn_agent::handle_view(output, Some(k));
            let m = r.structured_metadata->0;
            &&& r.success
            &&& r.output == codec::json_text(h)
            &&& checks::holds(h, "agent_id"@, JsonView::Text(k.id@))
            &&& checks::holds(h, "status"@, JsonView::Text(tasks::status_view(k.status)))
            &&& checks::holds(h, "output"@, JsonView::Text(output))
            &&& checks::holds(h, "terminal"@, JsonView::Bool(tasks::is_over(k.status)))
            &&& checks::holds(
                h,
                "child_session_key"@,
                json::text_or_null(text::opt(k.child_session_key)),
            )
            &&& r.structured_metadata is Some
            &&& checks::holds(m, "spawn_args"@, request)
            &&& checks::holds(m, "role"@, JsonView::Text(t.name@))
            &&& checks::holds(m, "role_summary"@, t.summary@)
            &&& checks::holds(m, "octos_tool"@, JsonView::Text("spawn"@))
        }),
        spawn_agent::projected(request, Some(t), Some(k)) matches Some(p) && p.task_id == k.id@
            && p.role == t.name@ && p.stamp == spawn_agent::stamp_view(t, request),
        spawn_agent::projected(request, None, Some(k)) is None,
        spawn_agent::projected(request, Some(t), None) is None,
{
    let h = spawn_agent::handle_view(output, Some(k))->Object_0;
    assert(h[0] == ("status"@, JsonView::Text(tasks::status_view(k.status))));
    assert(h[1] == ("output"@, JsonView::Text(output)));
    assert(h[2] == ("agent_id"@, JsonView::Text(k.id@)));
    assert(h[4] == ("child_session_key"@, json::text_or_null(text::opt(k.child_session_key))));
    assert(h[5] == ("terminal"@, JsonView::Bool(tasks::is_over(k.status))));
    assert(h.contains(h[0]) && h.contains(h[1]) && h.contains(h[2]) && h.contains(h[4])
        && h.contains(h[5]));
    let m = spawn_agent::spawn_metadata(request, Some(t))->Object_0;
    assert(m[1] == ("octos_tool"@, JsonView::Text("spawn"@)));
    assert(m[2] == ("spawn_args"@, request));
    assert(m[3] == ("role"@, JsonView::Text(t.name@)));
    assert(m[4] == ("role_summary"@, t.summary@));
    assert(m.contains(m[1]) && m.contains(m[2]) && m.contains(m[3]) && m.contains(m[4]));
}

/// A delegation needs a role, a task, a role of that very name, a tool that starts agents and a
/// supervisor; it then starts the bare task under the role, with the tools of the role, in the
/// background.
pub proof fn delegations_start_a_role(
    registry: RoleRegistry,
    role: Option<Seq<char>>,
    task: Option<Seq<char>>,
    spawns: bool,
    supervised: bool,
)
    ensures
        ({
            let r = delegate::started(registry, role, task, spawns, supervised);
            let full = role is Some && text::trim_view(role->0).len() > 0 && task is Some
                && text::trim_view(task->0).len() > 0;
            let known = registry.named(text::trim_view(role->0));
            &&& r is Ok <==> full && known is Some && spawns && supervised
            &&& r matches Err(a) ==> !a.success
            &&& r matches Ok((name, request)) ==> {
                &&& name == known->0.name@
                &&& checks::holds(request, "task"@, JsonView::Text(text::trim_view(task->0)))
                &&& checks::holds(request, "role"@, JsonView::Text(known->0.name@))
                &&& checks::holds(request, "mode"@, JsonView::Text("background"@))
                &&& checks::holds(
                    request,
                    "label"@,
                    JsonView::Text("delegate-"@ + known->0.name@),
                )
                &&& checks::holds(
                    request,
                    "allowed_tools"@,
                    json::texts_view(text::views(known->0.spawn_tools@)),
                )
            }
        }),
{
    if let Ok((name, request)) = delegate::started(registry, role, task, spawns, supervised) {
        let t = registry.named(text::trim_view(role->0))->0;
        let f = request->Object_0;
        assert(f[0] == ("task"@, JsonView::Text(text::trim_view(task->0))));
        assert(f[1] == ("label"@, JsonView::Text("delegate-"@ + t.name@)));
        assert(f[2] == ("mode"@, JsonView::Text("background"@)));
        assert(f[3] == ("role"@, JsonView::Text(t.name@)));
        assert(f[4] == ("allowed_tools"@, json::texts_view(text::views(t.spawn_tools@))));
        assert(f.contains(f[0]) && f.contains(f[1]) && f.contains(f[2]) && f.contains(f[3])
            && f.contains(f[4]));
    }
}

/// A delegation waits until its task is over or its time is, and no longer.
pub proof fn delegations_wait_for_their_task(t: TaskRecord, elapsed: u64, timeout: u64)
    ensures
        tasks::is_over(t.status) ==> delegate::wait_is_over(Some(t), elapsed, timeout),
        elapsed >= timeout ==> delegate::wait_is_over(Some(t), elapsed, timeout)
            && delegate::wait_is_over(None, elapsed, timeout),
        !tasks::is_over(t.status) && elapsed < timeout ==> !delegate::wait_is_over(
            Some(t),
            elapsed,
            timeout,
        ),
        elapsed < timeout ==> !delegate::wait_is_over(None, elapsed, timeout),
{
}

/// A delegation is a success exactly where its task completed; the answer holds the result, the
/// files and the error of the task, and says whether the time ran out.
pub proof fn delegations_answer_with_the_result(id: Seq<char>, role: Seq<char>, t: TaskRecord)
    ensures
        ({
            let r = delegate::finished(id, role, Some(t));
            let p = delegate::result_payload(id, role, Some(t));
            &&& r.success <==> t.status == TaskStatus::Completed
            &&& r.output == codec::json_text(p)
            &&& checks::holds(p, "agent_id"@, JsonView::Text(id))
            &&& checks::holds(p, "role"@, JsonView::Text(role))
            &&& checks::holds(p, "status"@, JsonView::Text(tasks::status_view(t.status)))
            &&& t.summary matches Some(s) ==> checks::holds(p, "result"@, JsonView::Text(s@))
            &&& checks::holds(p, "artifacts"@, json::texts_view(text::views(t.output_files@)))
            &&& checks::holds(p, "error"@, json::text_or_null(text::opt(t.error)))
            &&& checks::holds(p, "terminal"@, JsonView::Bool(tasks::is_over(t.status)))
            &&& checks::holds(p, "timed_out"@, JsonView::Bool(!tasks::is_over(t.status)))
            &&& r.structured_metadata is Some
            &&& checks::holds(
                r.structured_metadata->0,
                "artifacts"@,
                json::texts_view(text::views(t.output_files@)),
            )
            &&& checks::holds(r.structured_metadata->0, "agent_id"@, JsonView::Text(id))
        }),
        ({
            let r = delegate::finished(id, role, None);
            let p = delegate::result_payload(id, role, None);
            &&& !r.success
            &&& r.output == codec::json_text(p)
            &&& checks::holds(p, "status"@, JsonView::Text("unknown"@))
            &&& checks::holds(
                p,
                "error"@,
                JsonView::Text("agent "@ + id + " not found in supervisor"@),
            )
            &&& checks::holds(p, "timed_out"@, JsonView::Bool(false))
        }),
{
    let p = delegate::result_payload(id, role, Some(t))->Object_0;
    assert(p[0] == ("agent_id"@, JsonView::Text(id)));
    assert(p[1] == ("role"@, JsonView::Text(role)));
    assert(p[2] == ("status"@, JsonView::Text(tasks::status_view(t.status))));
    assert(p[4] == ("artifacts"@, json::texts_view(text::views(t.output_files@))));
    assert(p[5] == ("error"@, json::text_or_null(text::opt(t.error))));
    assert(p[6] == ("terminal"@, JsonView::Bool(tasks::is_over(t.status))));
    assert(p[7] == ("timed_out"@, JsonView::Bool(!tasks::is_over(t.status))));
    assert(p.contains(p[0]) && p.contains(p[1]) && p.contains(p[2]) && p.contains(p[3])
        && p.contains(p[4]) && p.contains(p[5]) && p.contains(p[6]) && p.contains(p[7]));
    if let Some(s) = t.summary {
        assert(p[3] == ("result"@, JsonView::Text(s@)));
    }
    let m = (delegate::finished(id, role, Some(t)).structured_metadata->0)->Object_0;
    assert(m[2] == ("agent_id"@, JsonView::Text(id)));
    assert(m[3] == ("artifacts"@, json::texts_view(text::views(t.output_files@))));
    assert(m.contains(m[2]) && m.contains(m[3]));
    let q = delegate::result_payload(id, role, None)->Object_0;
    assert(q[2] == ("status"@, JsonView::Text("unknown"@)));
    assert(q[5] == ("error"@, JsonView::Text("agent "@ + id + " not found in supervisor"@)));
    assert(q[7] == ("timed_out"@, JsonView::Bool(false)));
    assert(q.contains(q[2]) && q.contains(q[5]) && q.contains(q[7]));
}

} // verus!
