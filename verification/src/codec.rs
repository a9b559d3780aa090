//! JSON and TOML as text, by way of `serde_json` and `toml`.

use serde_json::Value;
use vstd::prelude::*;

use crate::json::{Json, JsonView};

verus! {

/// A value of `serde_json`.
#[verifier::external_type_specification]
#[verifier::external_body]
pub struct ExValue(serde_json::Value);

/// What a `serde_json` value holds, the members of an object in the order in which
/// `serde_json` walks them.
pub uninterp spec fn value_view(v: serde_json::Value) -> JsonView;

/// The value that `serde_json::from_str` reads from a text, where the text is JSON.
pub uninterp spec fn parsed(text: Seq<char>) -> Option<JsonView>;

/// The value that `serde_json` keeps for `j`: an object is a `serde_json::Map`, which orders
/// its members and holds each name once.
pub uninterp spec fn kept(j: JsonView) -> JsonView;

/// The compact text that `serde_json::Value` prints for what it holds.
pub uninterp spec fn printed(j: JsonView) -> Seq<char>;

/// Calls `serde_json::from_str`. What it reads is named; nothing else is claimed of it.
#[verifier::external_body]
fn read_value(text: &str) -> (r: Option<serde_json::Value>)
    ensures
        (match r {
            Some(v) => Some(value_view(v)),
            None => None,
        }) == parsed(text@),
{
    serde_json::from_str(text).ok()
}

/// Takes a `serde_json::Value` apart: each variant becomes its counterpart, an integer by
/// `Number::as_u64` or `Number::as_i64`, another number by the text that it prints.
#[verifier::external_body]
fn json_of_value(v: &serde_json::Value) -> (r: Json)
    ensures
        r@ == value_view(*v),
{
    match v {
        Value::Null => Json::Null,
        Value::Bool(b) => Json::Bool(*b),
        Value::Number(n) => match (n.as_u64(), n.as_i64()) {
            (Some(u), _) => Json::Unsigned(u),
            (None, Some(i)) => Json::Negative(i),
            (None, None) => Json::Float(n.to_string()),
        },
        Value::String(s) => Json::Text(s.clone()),
        Value::Array(a) => Json::Array(a.iter().map(json_of_value).collect()),
        Value::Object(m) => Json::Object(
            m.iter().map(|(k, x)| (k.clone(), json_of_value(x))).collect()),
    }
}

/// Whether no two members have the same name.
pub open spec fn distinct(fields: Seq<(Seq<char>, JsonView)>) -> bool {
    forall|a: int, b: int|
        0 <= a < b < fields.len() ==> (#[trigger] fields[a]).0 != (#[trigger] fields[b]).0
}

/// Whether the member at `b` is the last of its name.
pub open spec fn last_of_name(fields: Seq<(Seq<char>, JsonView)>, b: int) -> bool {
    forall|c: int| b < c < fields.len() ==> (#[trigger] fields[c]).0 != fields[b].0
}

/// Whether `k` is `j` with the members of every object in some order and, of members of the
/// same name, only the last. Nothing is said of numbers that are no integers.
pub open spec fn keeps(j: JsonView, k: JsonView) -> bool
    decreases j,
{
    match (j, k) {
        (JsonView::Float(_), _) => true,
        (JsonView::Array(a), JsonView::Array(b)) => {
            &&& a.len() == b.len()
            &&& forall|i: int| 0 <= i < a.len() ==> keeps(#[trigger] a[i], b[i])
        },
        (JsonView::Object(f), JsonView::Object(g)) => {
            &&& distinct(g)
            &&& forall|x: int|
                0 <= x < g.len() ==> exists|y: int|
                    0 <= y < f.len() && last_of_name(f, y) && f[y].0 == (#[trigger] g[x]).0
                        && keeps((#[trigger] f[y]).1, g[x].1)
            &&& forall|y: int|
                0 <= y < f.len() ==> exists|x: int|
                    0 <= x < g.len() && (#[trigger] g[x]).0 == (#[trigger] f[y]).0
        },
        _ => j == k,
    }
}

/// Whether a value holds integers as its only numbers, nests arrays and objects at most
/// `depth` deep, and has no two members of the same name in an object.
pub open spec fn plain(j: JsonView, depth: nat) -> bool
    decreases j,
{
    match j {
        JsonView::Float(_) => false,
        JsonView::Array(a) => depth > 0 && forall|i: int|
            0 <= i < a.len() ==> plain(#[trigger] a[i], (depth - 1) as nat),
        JsonView::Object(f) => depth > 0 && distinct(f) && forall|i: int|
            0 <= i < f.len() ==> plain((#[trigger] f[i]).1, (depth - 1) as nat),
        _ => true,
    }
}

/// What is kept of a plain value is plain.
pub proof fn kept_values_are_plain(j: JsonView, k: JsonView, depth: nat)
    requires
        keeps(j, k),
        plain(j, depth),
    ensures
        plain(k, depth),
    decreases j,
{
    match (j, k) {
        (JsonView::Array(a), JsonView::Array(b)) => {
            assert forall|i: int| 0 <= i < b.len() implies plain(
                #[trigger] b[i],
                (depth - 1) as nat,
            ) by {
                assert(keeps(a[i], b[i]));
                kept_values_are_plain(a[i], b[i], (depth - 1) as nat);
            }
        },
        (JsonView::Object(f), JsonView::Object(g)) => {
            assert forall|x: int| 0 <= x < g.len() implies plain(
                (#[trigger] g[x]).1,
                (depth - 1) as nat,
            ) by {
                let y = choose|y: int|
                    0 <= y < f.len() && last_of_name(f, y) && f[y].0 == g[x].0 && keeps(
                        (#[trigger] f[y]).1,
                        g[x].1,
                    );
                kept_values_are_plain(f[y].1, g[x].1, (depth - 1) as nat);
            }
        },
        _ => {},
    }
}

/// Makes a `serde_json::Value` of a value: each variant becomes its counterpart, a number
/// that is no integer by way of `serde_json::from_str`. An object becomes a `serde_json::Map`,
/// which holds each name once, with the value that was put in last; the order in which it
/// walks its members is left open.
#[verifier::external_body]
fn value_of_json(j: &Json) -> (r: serde_json::Value)
    ensures
        value_view(r) == kept(j@),
        keeps(j@, value_view(r)),
{
    match j {
        Json::Null => Value::Null,
        Json::Bool(b) => Value::Bool(*b),
        Json::Unsigned(n) => Value::from(*n),
        Json::Negative(n) => Value::from(*n),
        Json::Float(s) => serde_json::from_str(s).unwrap_or_default(),
        Json::Text(s) => Value::String(s.clone()),
        Json::Array(a) => Value::Array(a.iter().map(value_of_json).collect()),
        Json::Object(m) => Value::Object(
            m.iter().map(|(k, x)| (k.clone(), value_of_json(x))).collect()),
    }
}

/// Calls `<serde_json::Value as Display>::fmt` through `to_string`. The text is named: it is
/// the compact form of what the value holds. `serde_json::from_str` reads the value back from
/// it, where its numbers are integers and it is nested at most 127 deep; a deeper one is
/// refused, and of other numbers the last digit may change.
#[verifier::external_body]
fn print_value(v: &serde_json::Value) -> (r: String)
    ensures
        r@ == printed(value_view(*v)),
        plain(value_view(*v), 127) ==> parsed(r@) == Some(value_view(*v)),
{
    v.to_string()
}

/// The value that `toml::from_str` reads from a text, where the text is TOML.
pub uninterp spec fn toml_parsed(text: Seq<char>) -> Option<JsonView>;

/// Calls `toml::from_str` for a `serde_json::Value`. What it reads is named; nothing else is
/// claimed of it.
#[verifier::external_body]
fn read_toml(text: &str) -> (r: Option<serde_json::Value>)
    ensures
        (match r {
            Some(v) => Some(value_view(v)),
            None => None,
        }) == toml_parsed(text@),
{
    toml::from_str(text).ok()
}

/// The value that a text holds, where the text is TOML.
pub fn parse_toml(text: &str) -> (r: Option<Json>)
    ensures
        (match r {
            Some(j) => Some(j@),
            None => None,
        }) == toml_parsed(text@),
{
    match read_toml(text) {
        Some(v) => Some(json_of_value(&v)),
        None => None,
    }
}

/// The value that a text holds, where the text is JSON.
pub fn parse_json(text: &str) -> (r: Option<Json>)
    ensures
        (match r {
            Some(j) => Some(j@),
            None => None,
        }) == parsed(text@),
{
    match read_value(text) {
        Some(v) => Some(json_of_value(&v)),
        None => None,
    }
}

/// The compact text of a value.
pub open spec fn json_text(j: JsonView) -> Seq<char> {
    printed(kept(j))
}

/// The compact text of a value.
pub fn render_json(j: &Json) -> (r: String)
    ensures
        r@ == json_text(j@),
        plain(j@, 127) ==> parsed(r@) == Some(kept(j@)) && keeps(j@, kept(j@)),
{
    let v = value_of_json(j);
    proof {
        if plain(j@, 127) {
            kept_values_are_plain(j@, value_view(v), 127);
        }
    }
    print_value(&v)
}

} // verus!
