//! Members of objects, lists of texts, and texts joined and quoted.

use vstd::prelude::*;

use crate::json;
use crate::json::JsonView;
use crate::laws::places;
use crate::laws::texts;
use crate::text;

verus! {

/// A member is the first of its name, and there is none exactly where no member has the name.
pub proof fn members_are_found_by_name(
    fields: Seq<(Seq<char>, JsonView)>,
    key: Seq<char>,
    i: int,
)
    ensures
        0 <= i < fields.len() && fields[i].0 == key && (forall|k: int|
            0 <= k < i ==> (#[trigger] fields[k]).0 != key) ==> json::member(
            JsonView::Object(fields),
            key,
        ) == Some(fields[i].1),
        (forall|k: int| 0 <= k < fields.len() ==> (#[trigger] fields[k]).0 != key) ==> json::member(
            JsonView::Object(fields),
            key,
        ) is None,
        json::member(JsonView::Object(fields), key) matches Some(v) ==> fields.contains((key, v)),
{
    lemma_found(fields, key, 0);
    if 0 <= i < fields.len() && fields[i].0 == key && (forall|k: int|
        0 <= k < i ==> (#[trigger] fields[k]).0 != key) {
        lemma_found_at(fields, key, 0, i);
    }
}

proof fn lemma_found(fields: Seq<(Seq<char>, JsonView)>, key: Seq<char>, i: int)
    requires
        0 <= i <= fields.len(),
    ensures
        json::member_from(fields, key, i) matches Some(v) ==> fields.contains((key, v)),
    decreases fields.len() - i,
{
    if i < fields.len() {
        if fields[i].0 == key {
            assert(fields[i] == (key, fields[i].1));
        } else {
            lemma_found(fields, key, i + 1);
        }
    }
}

proof fn lemma_found_at(fields: Seq<(Seq<char>, JsonView)>, key: Seq<char>, i: int, at: int)
    requires
        0 <= i <= at < fields.len(),
        fields[at].0 == key,
        forall|k: int| i <= k < at ==> (#[trigger] fields[k]).0 != key,
    ensures
        json::member_from(fields, key, i) == Some(fields[at].1),
    decreases at - i,
{
    if i < at {
        assert(fields[i].0 != key);
        lemma_found_at(fields, key, i + 1, at);
    }
}

/// Only objects have members; a text is a member's only where it is one; and a number is read where
/// it is a whole one that is not negative.
pub proof fn values_are_what_they_are(key: Seq<char>, s: Seq<char>, n: int, b: bool)
    ensures
        json::member(JsonView::Null, key) is None,
        json::member(JsonView::Text(s), key) is None,
        json::text_of(JsonView::Text(s)) == Some(s),
        json::text_of(JsonView::Int(n)) is None,
        json::text_of(JsonView::Null) is None,
        0 <= n <= u64::MAX ==> json::unsigned_of(JsonView::Int(n)) == Some(n as u64),
        n < 0 || n > u64::MAX ==> json::unsigned_of(JsonView::Int(n)) is None,
        json::unsigned_of(JsonView::Text(s)) is None,
        json::unsigned_of(JsonView::Bool(b)) is None,
{
}

/// A text counts as given where it is not blank, without the white space around it.
pub proof fn blank_texts_are_not_given(a: Seq<char>, s: Seq<char>, b: Seq<char>)
    requires
        forall|i: int| 0 <= i < a.len() ==> text::white(#[trigger] a[i]),
        forall|i: int| 0 <= i < b.len() ==> text::white(#[trigger] b[i]),
        s.len() > 0,
        !text::white(s[0]),
        !text::white(s.last()),
    ensures
        json::filled(Some(a + s + b)) == Some(s),
        json::filled(Some(a)) is None,
        json::filled(None) is None,
{
    texts::trimming_takes_white_space_alone(a, s, b);
    texts::trimming_takes_white_space_alone(a, Seq::empty(), Seq::empty());
    assert(a + Seq::<char>::empty() + Seq::<char>::empty() =~= a);
}

/// Texts that are joined by a character that none of them holds are split back.
pub proof fn joined_texts_are_split_back(parts: Seq<Seq<char>>, c: char)
    requires
        parts.len() > 0,
        forall|i: int| 0 <= i < parts.len() ==> !(#[trigger] parts[i]).contains(c),
    ensures
        text::split_view(text::join_view(parts, seq![c]), c) == parts,
    decreases parts.len(),
{
    if parts.len() == 1 {
        texts::texts_are_split_at_a_character(parts[0], c, Seq::empty());
        assert(parts =~= seq![parts[0]]);
    } else {
        let front = parts.drop_last();
        assert forall|i: int| 0 <= i < front.len() implies !(#[trigger] front[i]).contains(c) by {
            assert(front[i] == parts[i]);
        }
        joined_texts_are_split_back(front, c);
        let last = parts.last();
        assert(!parts[parts.len() - 1].contains(c));
        texts::texts_are_split_at_a_character(last, c, Seq::empty());
        places::texts_are_split_on_either_side(text::join_view(front, seq![c]), c, last);
        assert(front + seq![last] =~= parts);
    }
}

/// The last place at which a text stands is the greatest one, and the first is the least.
pub proof fn places_in_a_text(s: Seq<char>, p: Seq<char>, i: int)
    requires
        text::stands_at(s, p, i),
    ensures
        text::last_position(s, p) matches Some(k) && i <= k && text::stands_at(s, p, k),
        text::first_position(s, p) matches Some(k) && 0 <= k <= i && text::stands_at(s, p, k),
        text::has(s, p),
{
    lemma_last(s, p, s.len() - p.len(), i);
    lemma_first(s, p, 0, i);
}

proof fn lemma_last(s: Seq<char>, p: Seq<char>, from: int, i: int)
    requires
        text::stands_at(s, p, i),
        i <= from,
    ensures
        text::last_from(s, p, from) matches Some(k) && i <= k && text::stands_at(s, p, k),
    decreases from - i,
{
    if !text::stands_at(s, p, from) {
        lemma_last(s, p, from - 1, i);
    }
}

proof fn lemma_first(s: Seq<char>, p: Seq<char>, from: int, i: int)
    requires
        text::stands_at(s, p, i),
        0 <= from <= i,
    ensures
        text::first_from(s, p, from) matches Some(k) && from <= k <= i && text::stands_at(s, p, k),
    decreases i - from,
{
    if !text::stands_at(s, p, from) {
        lemma_first(s, p, from + 1, i);
    }
}

/// A text stands in another where what comes before it and what comes behind it make up the other.
pub proof fn texts_stand_between_their_surroundings(a: Seq<char>, p: Seq<char>, b: Seq<char>)
    ensures
        text::stands_at(a + p + b, p, a.len() as int),
        text::starts(p + b, p),
        text::ends(a + p, p),
        text::after_prefix(p + b, p) == Some(b),
        text::has(a + p + b, p),
{
    let s = a + p + b;
    assert(s.subrange(a.len() as int, a.len() + p.len() as int) =~= p);
    assert(text::stands_at(s, p, a.len() as int));
    assert((p + b).subrange(0, p.len() as int) =~= p);
    assert((a + p).subrange(a.len() as int, a.len() + p.len() as int) =~= p);
    assert((p + b).skip(p.len() as int) =~= b);
}

/// A listed text is shown in brackets, each part quoted, with a comma and a blank between them.
pub proof fn lists_are_shown_in_brackets(a: Seq<char>, b: Seq<char>)
    ensures
        text::debug_list_view(Seq::empty()) == "[]"@,
        text::debug_list_view(seq![a]) == "["@ + text::debug_text(a) + "]"@,
        text::debug_list_view(seq![a, b]) == "["@ + (text::debug_text(a) + ", "@ + text::debug_text(
            b,
        )) + "]"@,
{
    reveal_strlit("[");
    reveal_strlit("]");
    reveal_strlit("[]");
    reveal_with_fuel(text::join_view, 3);
    assert(text::debug_list_view(Seq::empty()) =~= "[]"@);
    assert(text::debug_texts(seq![a]) =~= seq![text::debug_text(a)]);
    assert(text::debug_texts(seq![a, b]) =~= seq![text::debug_text(a), text::debug_text(b)]);
    assert(seq![text::debug_text(a), text::debug_text(b)].drop_last() =~= seq![
        text::debug_text(a),
    ]);
}

} // verus!
