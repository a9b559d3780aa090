//! Which plan a report stands for, and what it is answered with.

use vstd::prelude::*;

use crate::codec;
use crate::json;
use crate::json::JsonView;
use crate::laws::checks;
use crate::plan;
use crate::plan::PlanItemStatus;
use crate::text;

verus! {

/// The words of a status: those of work in progress, and those of work that is done; anything else,
/// and nothing at all, is pending.
pub proof fn words_stand_for_a_status(w: Seq<char>)
    ensures
        plan::status_of(Some(w)) == PlanItemStatus::InProgress <==> (w == "in_progress"@ || w
            == "in-progress"@ || w == "active"@ || w == "running"@),
        plan::status_of(Some(w)) == PlanItemStatus::Completed <==> (w == "completed"@ || w
            == "complete"@ || w == "done"@),
        plan::status_of(None) == PlanItemStatus::Pending,
{
    reveal_strlit("in_progress");
    reveal_strlit("in-progress");
    reveal_strlit("active");
    reveal_strlit("running");
    reveal_strlit("completed");
    reveal_strlit("complete");
    reveal_strlit("done");
    assert("active"@.len() == 6 && "running"@.len() == 7 && "in_progress"@.len() == 11
        && "in-progress"@.len() == 11 && "completed"@.len() == 9 && "complete"@.len() == 8
        && "done"@.len() == 4);
}

/// The entries of a report become the items of a plan, in order. An entry's id is its own or its
/// number, counted from one; its title is the first of its step, title, content and text that is
/// there; its status and priority are its own.
pub proof fn entries_become_items(args: JsonView, a: Seq<JsonView>, i: int, now: i64)
    requires
        json::member(args, "plan"@) == Some(JsonView::Array(a)) || json::member(args, "plan"@) is None
            && json::member(args, "items"@) == Some(JsonView::Array(a)),
        0 <= i < a.len(),
    ensures
        ({
            let p = plan::plan_of(args, now);
            let item = p.items[i];
            &&& p.items.len() == a.len()
            &&& p.updated_at_ms == now
            &&& json::text_member(a[i], "id"@) matches Some(id) ==> item.id == id
            &&& json::text_member(a[i], "id"@) is None ==> item.id == text::dec((i + 1) as nat)
            &&& json::text_member(a[i], "step"@) matches Some(t) ==> item.title == t
            &&& json::text_member(a[i], "step"@) is None && json::text_member(
                a[i],
                "title"@,
            ) is Some ==> Some(item.title) == json::text_member(a[i], "title"@)
            &&& json::text_member(a[i], "step"@) is None && json::text_member(a[i], "title"@) is None
                && json::text_member(a[i], "content"@) is Some ==> Some(item.title)
                == json::text_member(a[i], "content"@)
            &&& json::text_member(a[i], "step"@) is None && json::text_member(a[i], "title"@) is None
                && json::text_member(a[i], "content"@) is None && json::text_member(
                a[i],
                "text"@,
            ) is Some ==> Some(item.title) == json::text_member(a[i], "text"@)
            &&& item.status == plan::status_of(json::text_member(a[i], "status"@))
            &&& item.priority == json::text_member(a[i], "priority"@)
        }),
{
    reveal_with_fuel(plan::first_text, 5);
}

/// A plan is titled by its explanation, else by its title; a report without entries is an empty plan.
pub proof fn plans_are_titled(args: JsonView, now: i64)
    ensures
        json::text_member(args, "explanation"@) is Some ==> plan::plan_of(args, now).title
            == json::text_member(args, "explanation"@),
        json::text_member(args, "explanation"@) is None ==> plan::plan_of(args, now).title
            == json::text_member(args, "title"@),
        json::member(args, "plan"@) is None && json::member(args, "items"@) is None
            ==> plan::plan_of(args, now).items.len() == 0,
{
    reveal_with_fuel(plan::first_text, 3);
}

/// A report is answered with what it held, and a request for input with the request itself and word
/// that nobody answers.
pub proof fn reports_are_given_back(args: JsonView)
    ensures
        ({
            let r = plan::plan_answer(args);
            &&& r.success
            &&& r.output == codec::json_text(
                JsonView::Object(seq![("ok"@, JsonView::Bool(true)), ("plan"@, args)]),
            )
            &&& r.structured_metadata is Some
            &&& checks::holds(r.structured_metadata->0, "plan"@, args)
        }),
        ({
            let r = plan::request_answer(args);
            &&& r.success
            &&& r.structured_metadata is Some
            &&& checks::holds(r.structured_metadata->0, "request"@, args)
            &&& checks::holds(
                r.structured_metadata->0,
                "host_response_channel"@,
                JsonView::Text("not_attached"@),
            )
            &&& exists|body: JsonView|
                {
                    &&& r.output == #[trigger] codec::json_text(body)
                    &&& checks::holds(body, "request"@, args)
                    &&& checks::holds(body, "response"@, JsonView::Null)
                    &&& checks::holds(body, "status"@, JsonView::Text("requested"@))
                }
        }),
{
    let m = (plan::plan_answer(args).structured_metadata->0)->Object_0;
    assert(m[1] == ("plan"@, args));
    assert(m.contains(m[1]));
    let r = plan::request_answer(args);
    let q = (r.structured_metadata->0)->Object_0;
    assert(q[1] == ("request"@, args));
    assert(q[2] == ("host_response_channel"@, JsonView::Text("not_attached"@)));
    assert(q.contains(q[1]) && q.contains(q[2]));
    let body = JsonView::Object(
        seq![
            ("ok"@, JsonView::Bool(true)),
            ("kind"@, JsonView::Text("user_input_request"@)),
            ("status"@, JsonView::Text("requested"@)),
            ("request"@, args),
            ("response"@, JsonView::Null),
            ("message"@, JsonView::Text(plan::unattended_text())),
        ],
    );
    let f = body->Object_0;
    assert(f[2] == ("status"@, JsonView::Text("requested"@)));
    assert(f[3] == ("request"@, args));
    assert(f[4] == ("response"@, JsonView::Null));
    assert(f.contains(f[2]) && f.contains(f[3]) && f.contains(f[4]));
    assert(r.output == codec::json_text(body));
}

} // verus!
