//! What the schemas of the tools say of their arguments.

use vstd::prelude::*;

use crate::json;
use crate::json::JsonView;
use crate::laws::checks;
use crate::prompt_context;
use crate::prompt_context::PromptContextPhase;
use crate::schemas;
use crate::schemas::{ArgumentView, KindView};
use crate::task_file_state;
use crate::task_file_state::OwnerView;
use crate::text;

verus! {

/// A schema is that of an object; it has every argument as a property of its name, with its type and
/// its description, and names those that must be given.
pub proof fn schemas_hold_every_argument(
    arguments: Seq<ArgumentView>,
    required: Option<Seq<Seq<char>>>,
    i: int,
)
    requires
        0 <= i < arguments.len(),
    ensures
        ({
            let s = schemas::schema_view(arguments, required);
            let a = arguments[i];
            &&& checks::holds(s, "type"@, JsonView::Text("object"@))
            &&& required matches Some(r) ==> checks::holds(s, "required"@, json::texts_view(r))
            &&& exists|p: JsonView, v: JsonView|
                {
                    &&& #[trigger] checks::holds(s, "properties"@, p)
                    &&& #[trigger] checks::holds(p, a.name, v)
                    &&& a.description matches Some(d) ==> checks::holds(
                        v,
                        "description"@,
                        JsonView::Text(d),
                    )
                    &&& a.kind == KindView::Text ==> checks::holds(
                        v,
                        "type"@,
                        JsonView::Text("string"@),
                    )
                    &&& a.kind == KindView::Flag ==> checks::holds(
                        v,
                        "type"@,
                        JsonView::Text("boolean"@),
                    )
                    &&& a.kind matches KindView::Integer { min, max } ==> checks::holds(
                        v,
                        "type"@,
                        JsonView::Text("integer"@),
                    ) && checks::holds(v, "minimum"@, JsonView::Int(min)) && (max matches Some(m)
                        ==> checks::holds(v, "maximum"@, JsonView::Int(m)))
                    &&& a.kind matches KindView::OneOf(names) ==> checks::holds(
                        v,
                        "enum"@,
                        json::texts_view(names),
                    )
                    &&& a.kind == KindView::TextList || a.kind == KindView::ContentList
                        ==> checks::holds(v, "type"@, JsonView::Text("array"@))
                }
        }),
{
    let s = schemas::schema_view(arguments, required);
    let f = s->Object_0;
    let a = arguments[i];
    assert(f[0] == ("type"@, JsonView::Text("object"@)));
    let p = f[1].1;
    assert(f[1] == ("properties"@, p));
    assert(f.contains(f[0]) && f.contains(f[1]));
    if let Some(r) = required {
        assert(f[2] == ("required"@, json::texts_view(r)));
        assert(f.contains(f[2]));
    }
    let v = schemas::argument_json(a);
    let g = p->Object_0;
    assert(g[i] == (a.name, v));
    assert(g.contains(g[i]));
    let k = schemas::kind_members(a.kind);
    let h = v->Object_0;
    assert forall|x: int| 0 <= x < k.len() implies h.contains(#[trigger] k[x]) by {
        assert(h[x] == k[x]);
    }
    if a.description is Some {
        assert(h[k.len() as int] == ("description"@, JsonView::Text(a.description->0)));
        assert(h.contains(h[k.len() as int]));
    }
    assert(h.contains(k[0]));
    match a.kind {
        KindView::Integer { min, max } => {
            assert(h.contains(k[1]));
            if max is Some {
                assert(h.contains(k[2]));
            }
        },
        KindView::OneOf(names) => {
            assert(h.contains(k[1]));
        },
        _ => {},
    }
    assert(checks::holds(s, "properties"@, p));
    assert(checks::holds(p, a.name, v));
}

/// The timeouts that the schemas allow are those that are applied.
pub proof fn schemas_bound_the_timeouts(roles: Seq<Seq<char>>)
    ensures
        exists|i: int|
            0 <= i < schemas::exec_arguments().len() && (#[trigger] schemas::exec_arguments()[i]).name
                == "timeout_secs"@ && schemas::exec_arguments()[i].kind == (KindView::Integer {
                min: 1,
                max: Some(600),
            }),
        exists|i: int|
            0 <= i < schemas::bash_arguments().len() && (#[trigger] schemas::bash_arguments()[i]).name
                == "timeout_ms"@ && schemas::bash_arguments()[i].kind == (KindView::Integer {
                min: 1000,
                max: Some(600_000),
            }),
        exists|i: int|
            0 <= i < schemas::delegate_arguments(roles).len() && (
            #[trigger] schemas::delegate_arguments(roles)[i]).name == "timeout_ms"@
                && schemas::delegate_arguments(roles)[i].kind == (KindView::Integer {
                min: 1000,
                max: Some(3_600_000),
            }),
{
    assert(schemas::exec_arguments()[3].name == "timeout_secs"@);
    assert(schemas::bash_arguments()[1].name == "timeout_ms"@);
    assert(schemas::delegate_arguments(roles)[2].name == "timeout_ms"@);
}

/// A choice is told with a comma between its names, and with an `or` before the last.
pub proof fn choices_end_with_or(a: Seq<char>, b: Seq<char>, c: Seq<char>)
    ensures
        schemas::choice_view(seq![a]) == a,
        schemas::choice_view(seq![a, b]) == a + ", or "@ + b,
        schemas::choice_view(seq![a, b, c]) == a + ", "@ + b + ", or "@ + c,
        schemas::choice_view(Seq::empty()).len() == 0,
{
    reveal_with_fuel(text::join_view, 3);
    assert(seq![a, b].drop_last() =~= seq![a]);
    assert(seq![a, b, c].drop_last() =~= seq![a, b]);
}

/// A model branch owns receipts only where its workspace, its task, its session and itself are all
/// known.
pub proof fn owners_are_known_whole(o: OwnerView)
    ensures
        task_file_state::complete(o) <==> o.workspace_id != Seq::<char>::empty() && o.task_id
            != Seq::<char>::empty() && o.logical_session_id != Seq::<char>::empty()
            && o.model_branch_id != Seq::<char>::empty(),
{
    if o.workspace_id.len() == 0 {
        assert(o.workspace_id =~= Seq::empty());
    }
    if o.task_id.len() == 0 {
        assert(o.task_id =~= Seq::empty());
    }
    if o.logical_session_id.len() == 0 {
        assert(o.logical_session_id =~= Seq::empty());
    }
    if o.model_branch_id.len() == 0 {
        assert(o.model_branch_id =~= Seq::empty());
    }
}

/// Each phase of a prompt has its own name.
pub proof fn phases_are_named()
    ensures
        prompt_context::phase_name(PromptContextPhase::TurnStart) == "turn_start"@,
        prompt_context::phase_name(PromptContextPhase::Iteration) == "iteration"@,
        prompt_context::phase_name(PromptContextPhase::Retry) == "retry"@,
{
}

} // verus!
