//! JSON values as plain data.

use vstd::prelude::*;

use crate::text;
use crate::text::{same, trim};

verus! {

/// A JSON value. An object keeps its members in the order in which they were put in.
#[derive(Debug)]
pub enum Json {
    Null,
    Bool(bool),
    Unsigned(u64),
    Negative(i64),
    /// A number that is neither, by the text that stands for it.
    Float(String),
    Text(String),
    Array(Vec<Json>),
    Object(Vec<(String, Json)>),
}

/// What a [`Json`] value stands for.
pub enum JsonView {
    Null,
    Bool(bool),
    Int(int),
    Float(Seq<char>),
    Text(Seq<char>),
    Array(Seq<JsonView>),
    Object(Seq<(Seq<char>, JsonView)>),
}

/// The value that `j` stands for.
pub open spec fn json_view(j: Json) -> JsonView
    decreases j,
{
    match j {
        Json::Null => JsonView::Null,
        Json::Bool(b) => JsonView::Bool(b),
        Json::Unsigned(n) => JsonView::Int(n as int),
        Json::Negative(n) => JsonView::Int(n as int),
        Json::Float(s) => JsonView::Float(s@),
        Json::Text(s) => JsonView::Text(s@),
        Json::Array(v) => JsonView::Array(
            Seq::new(
                v@.len(),
                |i: int|
                    if 0 <= i < v@.len() {
                        json_view(v@[i])
                    } else {
                        JsonView::Null
                    },
            ),
        ),
        Json::Object(v) => JsonView::Object(
            Seq::new(
                v@.len(),
                |i: int|
                    if 0 <= i < v@.len() {
                        (v@[i].0@, json_view(v@[i].1))
                    } else {
                        (Seq::empty(), JsonView::Null)
                    },
            ),
        ),
    }
}

impl View for Json {
    type V = JsonView;

    open spec fn view(&self) -> JsonView {
        json_view(*self)
    }
}

/// The members of an object under construction.
pub open spec fn fields_view(v: Seq<(String, Json)>) -> Seq<(Seq<char>, JsonView)> {
    Seq::new(v.len(), |i: int| (v[i].0@, v[i].1@))
}

pub broadcast proof fn lemma_object_view(v: Vec<(String, Json)>)
    ensures
        #[trigger] json_view(Json::Object(v)) == JsonView::Object(fields_view(v@)),
{
    assert(json_view(Json::Object(v))->Object_0 =~= fields_view(v@));
}

pub broadcast proof fn lemma_array_view(v: Vec<Json>)
    ensures
        #[trigger] json_view(Json::Array(v)) == JsonView::Array(text::views(v@)),
{
    assert(json_view(Json::Array(v))->Array_0 =~= text::views(v@));
}

pub broadcast proof fn lemma_fields_push(v: Seq<(String, Json)>, f: (String, Json))
    ensures
        #[trigger] fields_view(v.push(f)) == fields_view(v).push((f.0@, f.1@)),
{
    assert(fields_view(v.push(f)) =~= fields_view(v).push((f.0@, f.1@)));
}

/// The first member named `key` from position `i` on.
pub open spec fn member_from(
    fields: Seq<(Seq<char>, JsonView)>,
    key: Seq<char>,
    i: int,
) -> Option<JsonView>
    decreases fields.len() - i,
{
    if i >= fields.len() {
        None
    } else if fields[i].0 == key {
        Some(fields[i].1)
    } else {
        member_from(fields, key, i + 1)
    }
}

/// The member `key` of a value, where it is an object that has one.
pub open spec fn member(j: JsonView, key: Seq<char>) -> Option<JsonView> {
    match j {
        JsonView::Object(fields) => member_from(fields, key, 0),
        _ => None,
    }
}

/// The view of an optional value.
pub open spec fn opt_json(o: Option<&Json>) -> Option<JsonView> {
    match o {
        Some(j) => Some(j@),
        None => None,
    }
}

/// The text of a value that is a string.
pub open spec fn text_of(j: JsonView) -> Option<Seq<char>> {
    match j {
        JsonView::Text(s) => Some(s),
        _ => None,
    }
}

/// The text of the member `key`, where it is a string.
pub open spec fn text_member(j: JsonView, key: Seq<char>) -> Option<Seq<char>> {
    match member(j, key) {
        Some(v) => text_of(v),
        None => None,
    }
}

/// The view of an optional string reference.
pub open spec fn opt_ref(o: Option<&String>) -> Option<Seq<char>> {
    match o {
        Some(s) => Some(s@),
        None => None,
    }
}

impl Json {
    /// The member `key`, where this is an object that has one.
    pub fn get(&self, key: &str) -> (r: Option<&Json>)
        ensures
            opt_json(r) == member(self@, key@),
    {
        broadcast use lemma_object_view;

        match self {
            Json::Object(fields) => {
                let mut i: usize = 0;
                while i < fields.len()
                    invariant
                        i <= fields.len(),
                        self@ == JsonView::Object(fields_view(fields@)),
                        member_from(fields_view(fields@), key@, i as int) == member(self@, key@),
                    decreases fields.len() - i,
                {
                    if same(&fields[i].0, key) {
                        return Some(&fields[i].1);
                    }
                    i += 1;
                }
                None
            },
            _ => None,
        }
    }

    /// The string that this is, if it is one.
    pub fn as_text(&self) -> (r: Option<&String>)
        ensures
            opt_ref(r) == text_of(self@),
    {
        match self {
            Json::Text(s) => Some(s),
            _ => None,
        }
    }

    /// The string under `key`, where there is one.
    pub fn get_text(&self, key: &str) -> (r: Option<&String>)
        ensures
            opt_ref(r) == text_member(self@, key@),
    {
        match self.get(key) {
            Some(j) => j.as_text(),
            None => None,
        }
    }

    /// A copy of this value.
    pub fn copy(&self) -> (r: Json)
        ensures
            r@ == self@,
        decreases self,
    {
        broadcast use {lemma_object_view, lemma_array_view};

        match self {
            Json::Null => Json::Null,
            Json::Bool(b) => Json::Bool(*b),
            Json::Unsigned(n) => Json::Unsigned(*n),
            Json::Negative(n) => Json::Negative(*n),
            Json::Float(s) => Json::Float(s.clone()),
            Json::Text(s) => Json::Text(s.clone()),
            Json::Array(v) => {
                let mut out: Vec<Json> = Vec::new();
                let mut i: usize = 0;
                while i < v.len()
                    invariant
                        i <= v.len(),
                        self == Json::Array(*v),
                        out.len() == i,
                        forall|k: int| 0 <= k < i ==> #[trigger] out@[k]@ == v@[k]@,
                    decreases v.len() - i,
                {
                    assert(decreases_to!(self => self->Array_0));
                    assert(decreases_to!(v => v@));
                    assert(decreases_to!(v@ => v@[i as int]));
                    out.push(v[i].copy());
                    i += 1;
                }
                assert(text::views(out@) =~= text::views(v@));
                Json::Array(out)
            },
            Json::Object(v) => {
                let mut out: Vec<(String, Json)> = Vec::new();
                let mut i: usize = 0;
                while i < v.len()
                    invariant
                        i <= v.len(),
                        self == Json::Object(*v),
                        out.len() == i,
                        forall|k: int|
                            0 <= k < i ==> (#[trigger] out@[k]).0@ == v@[k].0@ && out@[k].1@
                                == v@[k].1@,
                    decreases v.len() - i,
                {
                    assert(decreases_to!(self => self->Object_0));
                    assert(decreases_to!(v => v@));
                    assert(decreases_to!(v@ => v@[i as int]));
                    assert(decreases_to!(v@[i as int] => v@[i as int].1));
                    out.push((v[i].0.clone(), v[i].1.copy()));
                    i += 1;
                }
                assert(fields_view(out@) =~= fields_view(v@));
                Json::Object(out)
            },
        }
    }
}

/// A string value.
pub fn text_json(s: &str) -> (r: Json)
    ensures
        r@ == JsonView::Text(s@),
{
    Json::Text(s.to_owned())
}

/// A string value, or null.
pub open spec fn text_or_null(o: Option<Seq<char>>) -> JsonView {
    match o {
        Some(s) => JsonView::Text(s),
        None => JsonView::Null,
    }
}

/// A string value, or null.
pub fn opt_text_json(o: &Option<String>) -> (r: Json)
    ensures
        r@ == text_or_null(text::opt(*o)),
{
    match o {
        Some(s) => text_json(s),
        None => Json::Null,
    }
}

/// An array of string values.
pub open spec fn texts_view(v: Seq<Seq<char>>) -> JsonView {
    JsonView::Array(Seq::new(v.len(), |i: int| JsonView::Text(v[i])))
}

/// An array of string values.
pub fn texts_json(v: &Vec<String>) -> (r: Json)
    ensures
        r@ == texts_view(text::views(v@)),
{
    broadcast use lemma_array_view;

    let mut out: Vec<Json> = Vec::new();
    let mut i: usize = 0;
    while i < v.len()
        invariant
            i <= v.len(),
            out.len() == i,
            forall|k: int| 0 <= k < i ==> #[trigger] out@[k]@ == JsonView::Text(v@[k]@),
        decreases v.len() - i,
    {
        out.push(text_json(&v[i]));
        i += 1;
    }
    assert(text::views(out@) =~= Seq::new(
        v@.len(),
        |k: int| JsonView::Text(text::views(v@)[k]),
    ));
    Json::Array(out)
}

/// An object under construction.
pub struct Fields {
    fields: Vec<(String, Json)>,
}

impl View for Fields {
    type V = Seq<(Seq<char>, JsonView)>;

    closed spec fn view(&self) -> Seq<(Seq<char>, JsonView)> {
        fields_view(self.fields@)
    }
}

impl Fields {
    /// No members.
    pub fn new() -> (r: Fields)
        ensures
            r@ == Seq::<(Seq<char>, JsonView)>::empty(),
    {
        let r = Fields { fields: Vec::new() };
        assert(r@ =~= Seq::<(Seq<char>, JsonView)>::empty());
        r
    }

    /// One more member.
    pub fn with(self, key: &str, value: Json) -> (r: Fields)
        ensures
            r@ == self@.push((key@, value@)),
    {
        broadcast use lemma_fields_push;

        let mut fields = self.fields;
        fields.push((key.to_owned(), value));
        Fields { fields }
    }

    /// The object.
    pub fn object(self) -> (r: Json)
        ensures
            r@ == JsonView::Object(self@),
    {
        broadcast use lemma_object_view;

        Json::Object(self.fields)
    }
}

/// The position of the first member named `key` from `i` on, or the number of members.
pub open spec fn slot_from(fields: Seq<(Seq<char>, JsonView)>, key: Seq<char>, i: int) -> int
    decreases fields.len() - i,
{
    if i >= fields.len() {
        fields.len() as int
    } else if fields[i].0 == key {
        i
    } else {
        slot_from(fields, key, i + 1)
    }
}

/// The members with the value of `key` set.
pub open spec fn put(
    fields: Seq<(Seq<char>, JsonView)>,
    key: Seq<char>,
    value: JsonView,
) -> Seq<(Seq<char>, JsonView)> {
    let i = slot_from(fields, key, 0);
    if i < fields.len() {
        fields.update(i, (key, value))
    } else {
        fields.push((key, value))
    }
}

/// The first `n` members without those named `key`.
pub open spec fn without_from(
    fields: Seq<(Seq<char>, JsonView)>,
    key: Seq<char>,
    n: int,
) -> Seq<(Seq<char>, JsonView)>
    decreases n,
{
    if n <= 0 {
        Seq::empty()
    } else {
        let before = without_from(fields, key, n - 1);
        if fields[n - 1].0 == key {
            before
        } else {
            before.push(fields[n - 1])
        }
    }
}

/// The members without those named `key`.
pub open spec fn without(fields: Seq<(Seq<char>, JsonView)>, key: Seq<char>) -> Seq<
    (Seq<char>, JsonView),
> {
    without_from(fields, key, fields.len() as int)
}

proof fn lemma_slot(fields: Seq<(Seq<char>, JsonView)>, key: Seq<char>, i: int)
    requires
        0 <= i <= fields.len(),
    ensures
        i <= slot_from(fields, key, i) <= fields.len(),
        slot_from(fields, key, i) < fields.len() ==> fields[slot_from(fields, key, i)].0 == key,
        forall|k: int| i <= k < slot_from(fields, key, i) ==> (#[trigger] fields[k]).0 != key,
    decreases fields.len() - i,
{
    if i < fields.len() && fields[i].0 != key {
        lemma_slot(fields, key, i + 1);
    }
}

proof fn lemma_member_at(fields: Seq<(Seq<char>, JsonView)>, key: Seq<char>, i: int, at: int)
    requires
        0 <= i <= at < fields.len(),
        fields[at].0 == key,
        forall|k: int| i <= k < at ==> (#[trigger] fields[k]).0 != key,
    ensures
        member_from(fields, key, i) == Some(fields[at].1),
    decreases at - i,
{
    if i < at {
        lemma_member_at(fields, key, i + 1, at);
    }
}

proof fn lemma_member_none(fields: Seq<(Seq<char>, JsonView)>, key: Seq<char>, i: int)
    requires
        0 <= i <= fields.len(),
        forall|k: int| i <= k < fields.len() ==> (#[trigger] fields[k]).0 != key,
    ensures
        member_from(fields, key, i) is None,
    decreases fields.len() - i,
{
    if i < fields.len() {
        lemma_member_none(fields, key, i + 1);
    }
}

/// A member that was set is found with its value, and the other members are as before.
pub proof fn put_sets_one_member(
    fields: Seq<(Seq<char>, JsonView)>,
    key: Seq<char>,
    value: JsonView,
    other: Seq<char>,
)
    ensures
        member_from(put(fields, key, value), key, 0) == Some(value),
        other != key ==> member_from(put(fields, key, value), other, 0) == member_from(
            fields,
            other,
            0,
        ),
{
    let after = put(fields, key, value);
    let at = slot_from(fields, key, 0);
    lemma_slot(fields, key, 0);
    assert forall|k: int| 0 <= k < at implies (#[trigger] after[k]).0 != key by {
        assert(after[k] == fields[k]);
    }
    lemma_member_at(after, key, 0, at);
    if other != key {
        lemma_slot(fields, other, 0);
        let o = slot_from(fields, other, 0);
        if o < fields.len() {
            lemma_member_at(fields, other, 0, o);
            assert(after[o] == fields[o]);
            assert forall|k: int| 0 <= k < o implies (#[trigger] after[k]).0 != other by {
                assert(after[k] == fields[k] || after[k].0 == key);
            }
            lemma_member_at(after, other, 0, o);
        } else {
            lemma_member_none(fields, other, 0);
            assert forall|k: int| 0 <= k < after.len() implies (#[trigger] after[k]).0 != other by {
                if k < fields.len() {
                    assert(after[k] == fields[k] || after[k].0 == key);
                }
            }
            lemma_member_none(after, other, 0);
        }
    }
}

/// A member that was taken out is gone.
pub proof fn without_drops_the_member(fields: Seq<(Seq<char>, JsonView)>, key: Seq<char>)
    ensures
        member_from(without(fields, key), key, 0) is None,
{
    lemma_without(fields, key, fields.len() as int);
    lemma_member_none(without(fields, key), key, 0);
}

proof fn lemma_without(fields: Seq<(Seq<char>, JsonView)>, key: Seq<char>, n: int)
    ensures
        forall|k: int|
            0 <= k < without_from(fields, key, n).len() ==> (#[trigger] without_from(
                fields,
                key,
                n,
            )[k]).0 != key,
    decreases n,
{
    if n > 0 {
        lemma_without(fields, key, n - 1);
        let before = without_from(fields, key, n - 1);
        let all = without_from(fields, key, n);
        assert forall|k: int| 0 <= k < all.len() implies (#[trigger] all[k]).0 != key by {
            if k < before.len() {
                assert(all[k] == before[k]);
            }
        }
    }
}

impl Fields {
    /// The members with the value of `key` set.
    pub fn put(self, key: &str, value: Json) -> (r: Fields)
        ensures
            r@ == put(self@, key@, value@),
    {
        broadcast use lemma_fields_push;

        let mut fields = self.fields;
        let ghost before = fields_view(fields@);
        let mut i: usize = 0;
        while i < fields.len()
            invariant
                i <= fields.len(),
                before == fields_view(fields@),
                slot_from(before, key@, i as int) == slot_from(before, key@, 0),
            ensures
                i == slot_from(before, key@, 0),
                i <= fields.len(),
                before == fields_view(fields@),
            decreases fields.len() - i,
        {
            if same(&fields[i].0, key) {
                break;
            }
            i += 1;
        }
        if i < fields.len() {
            let ghost f = fields@;
            fields.set(i, (key.to_owned(), value));
            assert(fields_view(fields@) =~= before.update(i as int, (key@, value@)));
        } else {
            fields.push((key.to_owned(), value));
        }
        Fields { fields }
    }

    /// The members without those named `key`.
    pub fn without(self, key: &str) -> (r: Fields)
        ensures
            r@ == without(self@, key@),
    {
        broadcast use lemma_fields_push;

        let mut out: Vec<(String, Json)> = Vec::new();
        let mut i: usize = 0;
        let ghost all = fields_view(self.fields@);
        assert(fields_view(out@) =~= Seq::<(Seq<char>, JsonView)>::empty());
        while i < self.fields.len()
            invariant
                i <= self.fields.len(),
                all == fields_view(self.fields@),
                fields_view(out@) == without_from(all, key@, i as int),
            decreases self.fields.len() - i,
        {
            if !same(&self.fields[i].0, key) {
                out.push((self.fields[i].0.clone(), self.fields[i].1.copy()));
            }
            i += 1;
        }
        Fields { fields: out }
    }

    /// The value of the first member named `key`.
    pub fn get(&self, key: &str) -> (r: Option<&Json>)
        ensures
            opt_json(r) == member_from(self@, key@, 0),
    {
        let mut i: usize = 0;
        while i < self.fields.len()
            invariant
                i <= self.fields.len(),
                member_from(self@, key@, i as int) == member_from(self@, key@, 0),
            decreases self.fields.len() - i,
        {
            if same(&self.fields[i].0, key) {
                return Some(&self.fields[i].1);
            }
            i += 1;
        }
        None
    }
}

/// The members of a value; none where it is no object.
pub open spec fn members(j: JsonView) -> Seq<(Seq<char>, JsonView)> {
    match j {
        JsonView::Object(fields) => fields,
        _ => Seq::empty(),
    }
}

impl Json {
    /// The members of this value; none where it is no object.
    pub fn into_fields(self) -> (r: Fields)
        ensures
            r@ == members(self@),
    {
        broadcast use lemma_object_view;

        match self {
            Json::Object(fields) => Fields { fields },
            _ => Fields::new(),
        }
    }
}

/// Whether no two members have one name.
pub open spec fn distinct(fields: Seq<(Seq<char>, JsonView)>) -> bool {
    forall|i: int, j: int|
        0 <= i < j < fields.len() ==> (#[trigger] fields[i]).0 != (#[trigger] fields[j]).0
}

/// Setting a member keeps the names distinct.
pub proof fn put_keeps_distinct(
    fields: Seq<(Seq<char>, JsonView)>,
    key: Seq<char>,
    value: JsonView,
)
    requires
        distinct(fields),
    ensures
        distinct(put(fields, key, value)),
{
    let after = put(fields, key, value);
    lemma_slot(fields, key, 0);
    assert forall|i: int, j: int| 0 <= i < j < after.len() implies (#[trigger] after[i]).0 != (
    #[trigger] after[j]).0 by {
        if j < fields.len() {
            assert(after[i].0 == fields[i].0 && after[j].0 == fields[j].0);
        } else {
            assert(after[i] == fields[i]);
        }
    }
}

proof fn lemma_without_keeps(
    fields: Seq<(Seq<char>, JsonView)>,
    key: Seq<char>,
    other: Seq<char>,
    n: int,
)
    requires
        0 <= n <= fields.len(),
        distinct(fields),
        other != key,
    ensures
        distinct(without_from(fields, key, n)),
        forall|i: int, j: int|
            0 <= i < without_from(fields, key, n).len() && n <= j < fields.len() ==> (
            #[trigger] without_from(fields, key, n)[i]).0 != (#[trigger] fields[j]).0,
        member_from(without_from(fields, key, n), other, 0) == member_from(
            fields.take(n),
            other,
            0,
        ),
    decreases n,
{
    if n > 0 {
        lemma_without_keeps(fields, key, other, n - 1);
        let before = without_from(fields, key, n - 1);
        let after = without_from(fields, key, n);
        let f = fields[n - 1];
        assert(fields.take(n) =~= fields.take(n - 1).push(f));
        lemma_member_push(fields.take(n - 1), f, other, 0);
        if f.0 != key {
            lemma_member_push(before, f, other, 0);
            assert forall|i: int, j: int| 0 <= i < j < after.len() implies (
            #[trigger] after[i]).0 != (#[trigger] after[j]).0 by {
                assert(after[i] == before[i]);
                if j == before.len() {
                    assert(before[i].0 != fields[n - 1].0);
                } else {
                    assert(after[j] == before[j]);
                }
            }
        }
        assert forall|i: int, j: int|
            0 <= i < after.len() && n <= j < fields.len() implies (#[trigger] after[i]).0 != (
        #[trigger] fields[j]).0 by {
            if i < before.len() {
                assert(after[i] == before[i]);
            }
        }
    } else {
        assert(fields.take(0) =~= Seq::<(Seq<char>, JsonView)>::empty());
    }
}

pub proof fn lemma_member_push(
    fields: Seq<(Seq<char>, JsonView)>,
    f: (Seq<char>, JsonView),
    key: Seq<char>,
    i: int,
)
    requires
        0 <= i <= fields.len(),
    ensures
        member_from(fields.push(f), key, i) == (match member_from(fields, key, i) {
            Some(v) => Some(v),
            None => if f.0 == key {
                Some(f.1)
            } else {
                None
            },
        }),
    decreases fields.len() - i,
{
    reveal_with_fuel(member_from, 2);
    if i < fields.len() {
        assert(fields.push(f)[i] == fields[i]);
        lemma_member_push(fields, f, key, i + 1);
    }
}

/// Taking a member out leaves the others as they are.
pub proof fn without_keeps_others(
    fields: Seq<(Seq<char>, JsonView)>,
    key: Seq<char>,
    other: Seq<char>,
)
    requires
        distinct(fields),
        other != key,
    ensures
        distinct(without(fields, key)),
        member_from(without(fields, key), other, 0) == member_from(fields, other, 0),
{
    lemma_without_keeps(fields, key, other, fields.len() as int);
    assert(fields.take(fields.len() as int) =~= fields);
}

/// What [`put_sets_one_member`] and [`put_keeps_distinct`] say of every other name.
pub proof fn lemma_put(fields: Seq<(Seq<char>, JsonView)>, key: Seq<char>, value: JsonView)
    requires
        distinct(fields),
    ensures
        distinct(put(fields, key, value)),
        forall|other: Seq<char>| #[trigger]
            member_from(put(fields, key, value), other, 0) == (if other == key {
                Some(value)
            } else {
                member_from(fields, other, 0)
            }),
{
    put_keeps_distinct(fields, key, value);
    assert forall|other: Seq<char>| #[trigger]
        member_from(put(fields, key, value), other, 0) == (if other == key {
            Some(value)
        } else {
            member_from(fields, other, 0)
        }) by {
        put_sets_one_member(fields, key, value, other);
    }
}

/// What is known of an object once a member has been taken out.
pub proof fn lemma_without_all(fields: Seq<(Seq<char>, JsonView)>, key: Seq<char>)
    requires
        distinct(fields),
    ensures
        distinct(without(fields, key)),
        forall|other: Seq<char>| #[trigger]
            member_from(without(fields, key), other, 0) == (if other == key {
                None
            } else {
                member_from(fields, other, 0)
            }),
{
    without_drops_the_member(fields, key);
    assert(key.push('a').len() != key.len());
    without_keeps_others(fields, key, key.push('a'));
    assert forall|other: Seq<char>| #[trigger]
        member_from(without(fields, key), other, 0) == (if other == key {
            None
        } else {
            member_from(fields, other, 0)
        }) by {
        if other != key {
            without_keeps_others(fields, key, other);
        }
    }
}

/// A text without white space at its ends, where something is left of it.
pub open spec fn filled(o: Option<Seq<char>>) -> Option<Seq<char>> {
    match o {
        Some(s) => if text::trim_view(s).len() > 0 {
            Some(text::trim_view(s))
        } else {
            None
        },
        None => None,
    }
}

/// A text without white space at its ends, where something is left of it.
pub fn filled_text(o: Option<&String>) -> (r: Option<String>)
    ensures
        text::opt(r) == filled(opt_ref(o)),
{
    match o {
        Some(s) => {
            let t = trim(s);
            if t.as_str().is_empty() {
                None
            } else {
                Some(t)
            }
        },
        None => None,
    }
}

/// The number that a value is, where it is one that `u64` holds.
pub open spec fn unsigned_of(j: JsonView) -> Option<u64> {
    match j {
        JsonView::Int(n) => if 0 <= n <= u64::MAX {
            Some(n as u64)
        } else {
            None
        },
        _ => None,
    }
}

impl Json {
    /// The number that this is, where it is one that `u64` holds.
    pub fn as_unsigned(&self) -> (r: Option<u64>)
        ensures
            r == unsigned_of(self@),
    {
        match self {
            Json::Unsigned(n) => Some(*n),
            Json::Negative(n) => {
                if *n >= 0 {
                    Some(*n as u64)
                } else {
                    None
                }
            },
            _ => None,
        }
    }
}

/// A member of an object by its name, or of a list by its place.
pub open spec fn field(j: JsonView, key: Seq<char>, at: int) -> Option<JsonView> {
    match j {
        JsonView::Array(a) => if at < a.len() {
            Some(a[at])
        } else {
            None
        },
        _ => member(j, key),
    }
}

/// Whether a value can stand for `n` members: an object, or a list of them in their order, the
/// last of which may be missing. Where there is `spare` room, more may follow in the list.
pub open spec fn shaped(j: JsonView, n: int, spare: bool) -> bool {
    match j {
        JsonView::Object(_) => true,
        JsonView::Array(a) => spare || a.len() <= n,
        _ => false,
    }
}

/// A member of an object by its name, or of a list by its place.
pub fn pick<'a>(j: &'a Json, key: &str, at: usize) -> (r: Option<&'a Json>)
    ensures
        (match r {
            Some(v) => Some(v@),
            None => None,
        }) == field(j@, key@, at as int),
{
    broadcast use lemma_array_view;

    match j {
        Json::Array(a) => if at < a.len() {
            Some(&a[at])
        } else {
            None
        },
        _ => j.get(key),
    }
}

/// Whether a value can stand for `n` members.
pub fn is_shaped(j: &Json, n: usize, spare: bool) -> (r: bool)
    ensures
        r == shaped(j@, n as int, spare),
{
    broadcast use lemma_array_view;

    match j {
        Json::Object(_) => true,
        Json::Array(a) => spare || a.len() <= n,
        _ => false,
    }
}

} // verus!
