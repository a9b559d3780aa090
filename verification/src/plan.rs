//! Plans that the model reports, and its requests for input from the user.

use vstd::prelude::*;

use crate::codec;
use crate::codec::render_json;
use crate::json;
use crate::json::{text_json, Fields, Json, JsonView};
use crate::text;
use crate::text::{dec_string, own, same};
use crate::tool;
use crate::tool::{detailed, ToolResult, ToolResultView};

verus! {

/// How far an item of a plan is.
#[derive(Debug, Clone, Copy, PartialEq, Eq, Structural)]
pub enum PlanItemStatus {
    Pending,
    InProgress,
    Completed,
}

/// An item of a plan.
#[derive(Debug)]
pub struct UiPlanItem {
    pub id: String,
    pub title: String,
    pub status: PlanItemStatus,
    pub priority: Option<String>,
}

/// A plan.
#[derive(Debug)]
pub struct UiPlanRecord {
    pub items: Vec<UiPlanItem>,
    pub title: Option<String>,
    pub updated_at_ms: i64,
}

/// What a [`UiPlanItem`] stands for.
#[verifier::ext_equal]
pub struct PlanItemView {
    pub id: Seq<char>,
    pub title: Seq<char>,
    pub status: PlanItemStatus,
    pub priority: Option<Seq<char>>,
}

/// What a [`UiPlanRecord`] stands for.
#[verifier::ext_equal]
pub struct PlanView {
    pub items: Seq<PlanItemView>,
    pub title: Option<Seq<char>>,
    pub updated_at_ms: i64,
}

impl View for UiPlanItem {
    type V = PlanItemView;

    open spec fn view(&self) -> PlanItemView {
        PlanItemView {
            id: self.id@,
            title: self.title@,
            status: self.status,
            priority: text::opt(self.priority),
        }
    }
}

impl View for UiPlanRecord {
    type V = PlanView;

    open spec fn view(&self) -> PlanView {
        PlanView {
            items: text::views(self.items@),
            title: text::opt(self.title),
            updated_at_ms: self.updated_at_ms,
        }
    }
}

/// The status that a word stands for; anything unknown is pending.
pub open spec fn status_of(word: Option<Seq<char>>) -> PlanItemStatus {
    match word {
        Some(w) => if w == "in_progress"@ || w == "in-progress"@ || w == "active"@ || w
            == "running"@ {
            PlanItemStatus::InProgress
        } else if w == "completed"@ || w == "complete"@ || w == "done"@ {
            PlanItemStatus::Completed
        } else {
            PlanItemStatus::Pending
        },
        None => PlanItemStatus::Pending,
    }
}

/// The text under the first of `keys` that is a text, from the key at `i` on.
pub open spec fn first_text(j: JsonView, keys: Seq<Seq<char>>, i: int) -> Option<Seq<char>>
    decreases keys.len() - i,
{
    if i >= keys.len() {
        None
    } else {
        match json::text_member(j, keys[i]) {
            Some(s) => Some(s),
            None => first_text(j, keys, i + 1),
        }
    }
}

/// The names under which an item's text may stand.
pub open spec fn item_keys() -> Seq<Seq<char>> {
    seq!["step"@, "title"@, "content"@, "text"@]
}

/// The names under which a plan's title may stand.
pub open spec fn title_keys() -> Seq<Seq<char>> {
    seq!["explanation"@, "title"@]
}

/// The item that stands at `i` in a plan. Its number is its id where it has none.
pub open spec fn item_view(item: JsonView, i: int) -> PlanItemView {
    PlanItemView {
        id: match json::text_member(item, "id"@) {
            Some(id) => id,
            None => text::dec((i + 1) as nat),
        },
        title: match first_text(item, item_keys(), 0) {
            Some(t) => t,
            None => Seq::empty(),
        },
        status: status_of(json::text_member(item, "status"@)),
        priority: json::text_member(item, "priority"@),
    }
}

/// The entries of a plan: under `plan`, else under `items`.
pub open spec fn entries_of(args: JsonView) -> Seq<JsonView> {
    let given = match json::member(args, "plan"@) {
        Some(p) => Some(p),
        None => json::member(args, "items"@),
    };
    match given {
        Some(JsonView::Array(a)) => a,
        _ => Seq::empty(),
    }
}

/// The plan that a report holds.
pub open spec fn plan_of(args: JsonView, now_ms: i64) -> PlanView {
    PlanView {
        items: entries_of(args).map(|i: int, item: JsonView| item_view(item, i)),
        title: first_text(args, title_keys(), 0),
        updated_at_ms: now_ms,
    }
}

/// Every entry of a report becomes an item of the plan, in the same place, and an entry
/// without an id gets its number, counted from one.
pub proof fn plan_keeps_every_entry(args: JsonView, now_ms: i64, i: int)
    requires
        0 <= i < entries_of(args).len(),
    ensures
        plan_of(args, now_ms).items.len() == entries_of(args).len(),
        json::text_member(entries_of(args)[i], "id"@) is None ==> plan_of(
            args,
            now_ms,
        ).items[i].id == text::dec((i + 1) as nat),
{
}

fn copy_ref(o: Option<&String>) -> (r: Option<String>)
    ensures
        text::opt(r) == json::opt_ref(o),
{
    match o {
        Some(s) => {
            let t = own(s);
            Some(t)
        },
        None => None,
    }
}

fn find_text(j: &Json, keys: &Vec<&str>) -> (r: Option<String>)
    ensures
        text::opt(r) == first_text(j@, keys@.map_values(|k: &str| k@), 0),
{
    let ghost ks = keys@.map_values(|k: &str| k@);
    let mut i: usize = 0;
    while i < keys.len()
        invariant
            i <= keys.len(),
            ks == keys@.map_values(|k: &str| k@),
            first_text(j@, ks, 0) == first_text(j@, ks, i as int),
        decreases keys.len() - i,
    {
        let found = copy_ref(j.get_text(keys[i]));
        if found.is_some() {
            return found;
        }
        i += 1;
    }
    None
}

fn read_status(word: Option<&String>) -> (r: PlanItemStatus)
    ensures
        r == status_of(json::opt_ref(word)),
{
    match word {
        Some(w) => if same(w, "in_progress") || same(w, "in-progress") || same(w, "active")
            || same(w, "running") {
            PlanItemStatus::InProgress
        } else if same(w, "completed") || same(w, "complete") || same(w, "done") {
            PlanItemStatus::Completed
        } else {
            PlanItemStatus::Pending
        },
        None => PlanItemStatus::Pending,
    }
}

fn read_item(item: &Json, i: usize) -> (r: UiPlanItem)
    ensures
        r@ == item_view(item@, i as int),
{
    let keys: Vec<&str> = vec!["step", "title", "content", "text"];
    assert(keys@.map_values(|k: &str| k@) =~= item_keys());
    let title = match find_text(item, &keys) {
        Some(t) => t,
        None => {
            let t = String::new();
            t
        },
    };
    let id = match copy_ref(item.get_text("id")) {
        Some(id) => id,
        None => dec_string(i as u128 + 1),
    };
    UiPlanItem {
        id,
        title,
        status: read_status(item.get_text("status")),
        priority: copy_ref(item.get_text("priority")),
    }
}

/// The plan that a report holds: an item per entry, with its text, its status and its id; its
/// number is its id where the report gives none.
pub fn normalize_plan(args: &Json, now_ms: i64) -> (r: UiPlanRecord)
    ensures
        r@ == plan_of(args@, now_ms),
{
    broadcast use json::lemma_array_view;

    let given: Option<&Json> = match args.get("plan") {
        Some(p) => Some(p),
        None => args.get("items"),
    };
    let mut items: Vec<UiPlanItem> = Vec::new();
    if let Some(Json::Array(entries)) = given {
        let mut i: usize = 0;
        while i < entries.len()
            invariant
                i <= entries.len(),
                items.len() == i,
                forall|k: int|
                    0 <= k < i ==> (#[trigger] items@[k])@ == item_view(entries@[k]@, k),
            decreases entries.len() - i,
        {
            items.push(read_item(&entries[i], i));
            i += 1;
        }
        assert(entries_of(args@) =~= text::views(entries@));
    }
    assert(text::views(items@) =~= plan_of(args@, now_ms).items);
    let keys: Vec<&str> = vec!["explanation", "title"];
    assert(keys@.map_values(|k: &str| k@) =~= title_keys());
    UiPlanRecord { items, title: find_text(args, &keys), updated_at_ms: now_ms }
}

/// What a reported plan is answered with.
pub open spec fn plan_answer(args: JsonView) -> ToolResultView {
    tool::detailed_view(
        codec::json_text(JsonView::Object(seq![("ok"@, JsonView::Bool(true)), ("plan"@, args)])),
        true,
        JsonView::Object(
            seq![("codex_tool"@, JsonView::Text("update_plan"@)), ("plan"@, args)],
        ),
    )
}

/// Reports a plan.
#[derive(Debug)]
pub struct UpdatePlanTool;

impl UpdatePlanTool {
    /// The tool's name.
    pub fn name(&self) -> (r: &'static str)
        ensures
            r@ == "update_plan"@,
    {
        "update_plan"
    }

    /// The plan to show, and what the report is answered with.
    pub fn execute(&self, args: &Json, now_ms: i64) -> (r: (UiPlanRecord, ToolResult))
        ensures
            r.0@ == plan_of(args@, now_ms),
            r.1@ == plan_answer(args@),
    {
        let body = Fields::new().with("ok", Json::Bool(true)).with("plan", args.copy());
        assert(body@ =~= seq![("ok"@, JsonView::Bool(true)), ("plan"@, args@)]);
        let notes = Fields::new().with("codex_tool", text_json("update_plan")).with(
            "plan",
            args.copy(),
        );
        assert(notes@ =~= seq![
            ("codex_tool"@, JsonView::Text("update_plan"@)),
            ("plan"@, args@),
        ]);
        (
            normalize_plan(args, now_ms),
            detailed(render_json(&body.object()), true, notes.object()),
        )
    }
}

/// What a request for input from the user says where nobody can answer it.
pub open spec fn unattended_text() -> Seq<char> {
    "User input request recorded in the transcript; no synchronous host response channel is attached to this runtime (non-interactive or unattended run). Do NOT wait or re-ask: proceed with your best judgment, state the assumption in one line, and continue the task so the user can redirect you later if needed."@
}

/// What a request for input from the user is answered with.
pub open spec fn request_answer(args: JsonView) -> ToolResultView {
    tool::detailed_view(
        codec::json_text(
            JsonView::Object(
                seq![
                    ("ok"@, JsonView::Bool(true)),
                    ("kind"@, JsonView::Text("user_input_request"@)),
                    ("status"@, JsonView::Text("requested"@)),
                    ("request"@, args),
                    ("response"@, JsonView::Null),
                    ("message"@, JsonView::Text(unattended_text())),
                ],
            ),
        ),
        true,
        JsonView::Object(
            seq![
                ("codex_tool"@, JsonView::Text("request_user_input"@)),
                ("request"@, args),
                ("host_response_channel"@, JsonView::Text("not_attached"@)),
            ],
        ),
    )
}

/// Asks the user for input.
#[derive(Debug)]
pub struct RequestUserInputTool;

impl RequestUserInputTool {
    /// The tool's name.
    pub fn name(&self) -> (r: &'static str)
        ensures
            r@ == "request_user_input"@,
    {
        "request_user_input"
    }

    /// What a request is answered with: it is recorded, and the model goes on without a reply.
    pub fn execute(&self, args: &Json) -> (r: ToolResult)
        ensures
            r@ == request_answer(args@),
    {
        let body = Fields::new().with("ok", Json::Bool(true)).with(
            "kind",
            text_json("user_input_request"),
        ).with("status", text_json("requested")).with("request", args.copy()).with(
            "response",
            Json::Null,
        ).with(
            "message",
            text_json(
                "User input request recorded in the transcript; no synchronous host response channel is attached to this runtime (non-interactive or unattended run). Do NOT wait or re-ask: proceed with your best judgment, state the assumption in one line, and continue the task so the user can redirect you later if needed.",
            ),
        );
        assert(body@ =~= seq![
            ("ok"@, JsonView::Bool(true)),
            ("kind"@, JsonView::Text("user_input_request"@)),
            ("status"@, JsonView::Text("requested"@)),
            ("request"@, args@),
            ("response"@, JsonView::Null),
            ("message"@, JsonView::Text(unattended_text())),
        ]);
        let notes = Fields::new().with("codex_tool", text_json("request_user_input")).with(
            "request",
            args.copy(),
        ).with("host_response_channel", text_json("not_attached"));
        assert(notes@ =~= seq![
            ("codex_tool"@, JsonView::Text("request_user_input"@)),
            ("request"@, args@),
            ("host_response_channel"@, JsonView::Text("not_attached"@)),
        ]);
        detailed(render_json(&body.object()), true, notes.object())
    }
}

} // verus!
