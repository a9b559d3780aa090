//! What a search of the tools finds, in which order, and what it answers.

use vstd::prelude::*;

use crate::catalog;
use crate::catalog::EntryView;
use crate::codec;
use crate::json;
use crate::json::JsonView;
use crate::laws::checks;
use crate::text;

verus! {

/// Whether an entry, in lower case, names a token: in its name, in its description or in a tag.
pub open spec fn mentions(e: EntryView, token: Seq<char>) -> bool {
    ||| text::has(catalog::lowercase(e.name), token)
    ||| text::has(catalog::lowercase(e.description), token)
    ||| exists|t: int|
        0 <= t < e.tags.len() && text::has(catalog::lowercase(#[trigger] e.tags[t]), token)
}

proof fn lemma_lowered_tags(e: EntryView, token: Seq<char>)
    ensures
        catalog::tagged(catalog::lowered(e).tags, token) <==> exists|t: int|
            0 <= t < e.tags.len() && text::has(catalog::lowercase(#[trigger] e.tags[t]), token),
{
    let low = catalog::lowered(e).tags;
    if catalog::tagged(low, token) {
        let t = choose|t: int| 0 <= t < low.len() && text::has(#[trigger] low[t], token);
        assert(low[t] == catalog::lowercase(e.tags[t]));
    }
    if exists|t: int|
        0 <= t < e.tags.len() && text::has(catalog::lowercase(#[trigger] e.tags[t]), token) {
        let t = choose|t: int|
            0 <= t < e.tags.len() && text::has(catalog::lowercase(#[trigger] e.tags[t]), token);
        assert(low[t] == catalog::lowercase(e.tags[t]));
    }
}

proof fn lemma_tokens_add(e: EntryView, tokens: Seq<Seq<char>>, n: int)
    requires
        0 <= n <= tokens.len(),
    ensures
        catalog::tokens_score(catalog::lowered(e), tokens, n) >= 0,
        catalog::tokens_score(catalog::lowered(e), tokens, n) > 0 <==> exists|k: int|
            0 <= k < n && mentions(e, #[trigger] tokens[k]),
    decreases n,
{
    if n > 0 {
        lemma_tokens_add(e, tokens, n - 1);
        lemma_lowered_tags(e, tokens[n - 1]);
        if exists|k: int| 0 <= k < n && mentions(e, #[trigger] tokens[k]) {
            let k = choose|k: int| 0 <= k < n && mentions(e, #[trigger] tokens[k]);
            if k < n - 1 {
                assert(mentions(e, tokens[k]));
            }
        }
        if mentions(e, tokens[n - 1]) {
        } else if catalog::tokens_score(catalog::lowered(e), tokens, n) > 0 {
            assert(catalog::tokens_score(catalog::lowered(e), tokens, n - 1) > 0);
        }
    }
}

/// An entry fits a query exactly where a token of the query, or the query as a whole, stands in its
/// name or its description, or a token stands in one of its tags.
pub proof fn entries_fit_what_they_mention(
    e: EntryView,
    query: Seq<char>,
    tokens: Seq<Seq<char>>,
)
    ensures
        catalog::score_view(e, query, tokens) >= 0,
        catalog::score_view(e, query, tokens) > 0 <==> {
            ||| exists|k: int| 0 <= k < tokens.len() && mentions(e, #[trigger] tokens[k])
            ||| query.len() > 0 && text::has(catalog::lowercase(e.name), query)
            ||| query.len() > 0 && text::has(catalog::lowercase(e.description), query)
        },
{
    lemma_tokens_add(e, tokens, tokens.len() as int);
    if catalog::lowercase(e.name) == query {
        text::lemma_has_itself(query);
    }
}

/// What a token adds to the score of an entry: eight where its name holds the token, three where its
/// description does, four where a tag does.
pub proof fn tokens_add_to_the_score(
    e: EntryView,
    query: Seq<char>,
    tokens: Seq<Seq<char>>,
    token: Seq<char>,
)
    requires
        catalog::score_view(e, query, tokens) <= 2_000_000_000,
    ensures
        catalog::score_view(e, query, tokens.push(token)) - catalog::score_view(e, query, tokens)
            == (if text::has(catalog::lowercase(e.name), token) {
            8int
        } else {
            0
        }) + (if text::has(catalog::lowercase(e.description), token) {
            3int
        } else {
            0
        }) + (if exists|t: int|
            0 <= t < e.tags.len() && text::has(catalog::lowercase(#[trigger] e.tags[t]), token) {
            4int
        } else {
            0
        }),
{
    lemma_lowered_tags(e, token);
    let more = tokens.push(token);
    lemma_same_tokens(catalog::lowered(e), tokens, more, tokens.len() as int);
    assert(more[more.len() - 1] == token);
}

proof fn lemma_same_tokens(e: EntryView, a: Seq<Seq<char>>, b: Seq<Seq<char>>, n: int)
    requires
        n <= a.len(),
        n <= b.len(),
        forall|k: int| 0 <= k < n ==> a[k] == b[k],
    ensures
        catalog::tokens_score(e, a, n) == catalog::tokens_score(e, b, n),
    decreases n,
{
    if n > 0 {
        lemma_same_tokens(e, a, b, n - 1);
    }
}

/// What the query as a whole adds: a hundred where it is the name, fifty where the name holds it,
/// ten where the description does.
pub proof fn whole_queries_add_to_the_score(e: EntryView, query: Seq<char>)
    requires
        query.len() > 0,
    ensures
        catalog::score_view(e, query, Seq::empty()) == (if catalog::lowercase(e.name) == query {
            100int
        } else if text::has(catalog::lowercase(e.name), query) {
            50
        } else {
            0
        }) + (if text::has(catalog::lowercase(e.description), query) {
            10int
        } else {
            0
        }),
{
}

/// The scored entries are the ones that fit, each once, with its score, in the order of the catalog.
pub proof fn fitting_entries_are_scored(
    c: Seq<EntryView>,
    query: Seq<char>,
    tokens: Seq<Seq<char>>,
    n: int,
    i: int,
)
    requires
        0 <= i < n <= c.len(),
    ensures
        catalog::scored(c, query, tokens, n).contains(
            (i, catalog::score_view(c[i], query, tokens)),
        ) <==> catalog::score_view(c[i], query, tokens) > 0,
    decreases n,
{
    let before = catalog::scored(c, query, tokens, n - 1);
    let all = catalog::scored(c, query, tokens, n);
    let p = (i, catalog::score_view(c[i], query, tokens));
    lemma_scored_places(c, query, tokens, n);
    if i < n - 1 {
        fitting_entries_are_scored(c, query, tokens, n - 1, i);
        if before.contains(p) {
            let k = choose|k: int| 0 <= k < before.len() && before[k] == p;
            assert(all[k] == p);
        }
    } else if p.1 > 0 {
        assert(all[all.len() - 1] == p);
    }
    if all.contains(p) {
        let k = choose|k: int| 0 <= k < all.len() && all[k] == p;
        assert(all[k].1 > 0);
    }
}

proof fn lemma_scored_places(
    c: Seq<EntryView>,
    query: Seq<char>,
    tokens: Seq<Seq<char>>,
    n: int,
)
    requires
        0 <= n <= c.len(),
    ensures
        ({
            let all = catalog::scored(c, query, tokens, n);
            &&& forall|k: int|
                0 <= k < all.len() ==> {
                    &&& 0 <= (#[trigger] all[k]).0 < n
                    &&& all[k].1 > 0
                    &&& all[k].1 == catalog::score_view(c[all[k].0], query, tokens)
                }
            &&& forall|j: int, k: int|
                0 <= j < k < all.len() ==> (#[trigger] all[j]).0 < (#[trigger] all[k]).0
        }),
    decreases n,
{
    if n > 0 {
        lemma_scored_places(c, query, tokens, n - 1);
        let before = catalog::scored(c, query, tokens, n - 1);
        let all = catalog::scored(c, query, tokens, n);
        assert forall|k: int| 0 <= k < all.len() implies {
            &&& 0 <= (#[trigger] all[k]).0 < n
            &&& all[k].1 > 0
            &&& all[k].1 == catalog::score_view(c[all[k].0], query, tokens)
        } by {
            if k < before.len() {
                assert(all[k] == before[k]);
            }
        }
        assert forall|j: int, k: int| 0 <= j < k < all.len() implies (#[trigger] all[j]).0 < (
        #[trigger] all[k]).0 by {
            assert(all[j] == before[j]);
            if k < before.len() {
                assert(all[k] == before[k]);
            }
        }
    }
}

proof fn lemma_ranked_holds(c: Seq<EntryView>, s: Seq<(int, int)>, p: (int, int))
    ensures
        catalog::ranked(c, s).contains(p) <==> s.contains(p),
{
    catalog::ranking_is_sorted(c, s);
    let r = catalog::ranked(c, s);
    vstd::seq_lib::to_multiset_contains(r, p);
    vstd::seq_lib::to_multiset_contains(s, p);
}

/// Where as many entries may be found as there are, an entry is found, with its score, wherever a
/// token of the query stands in its name, its description or one of its tags, all in lower case.
pub proof fn mentioned_tokens_find_their_entry(
    c: Seq<EntryView>,
    query: Seq<char>,
    limit: nat,
    i: int,
    t: int,
)
    requires
        query.len() > 0,
        limit >= c.len(),
        0 <= i < c.len(),
        0 <= t < catalog::tokens_from(query, 0).len(),
        mentions(c[i], catalog::tokens_from(query, 0)[t]),
    ensures
        exists|k: int|
            0 <= k < catalog::best(c, query, limit).len() && (#[trigger] catalog::best(
                c,
                query,
                limit,
            )[k]).0 == i && catalog::best(c, query, limit)[k].1 > 0,
{
    let tokens = catalog::tokens_from(query, 0);
    entries_fit_what_they_mention(c[i], query, tokens);
    assert(mentions(c[i], tokens[t]));
    let s = catalog::scored(c, query, tokens, c.len() as int);
    let p = (i, catalog::score_view(c[i], query, tokens));
    fitting_entries_are_scored(c, query, tokens, c.len() as int, i);
    lemma_ranked_holds(c, s, p);
    catalog::ranking_is_sorted(c, s);
    lemma_scored_len(c, query, tokens, c.len() as int);
    let b = catalog::best(c, query, limit);
    let k = choose|k: int| 0 <= k < b.len() && b[k] == p;
    assert(b[k].0 == i);
}

proof fn lemma_scored_len(c: Seq<EntryView>, query: Seq<char>, tokens: Seq<Seq<char>>, n: int)
    requires
        0 <= n <= c.len(),
    ensures
        catalog::scored(c, query, tokens, n).len() <= n,
    decreases n,
{
    if n > 0 {
        lemma_scored_len(c, query, tokens, n - 1);
    }
}

/// Every entry that is found fits the query and carries its score; a better one, or one of an
/// earlier name that fits as well, comes first; and an entry that fits but is left out is no better
/// than one that is found.
pub proof fn the_best_are_found_first(
    c: Seq<EntryView>,
    query: Seq<char>,
    limit: nat,
    j: int,
    k: int,
)
    requires
        query.len() > 0,
        0 <= j < k < catalog::best(c, query, limit).len(),
    ensures
        ({
            let b = catalog::best(c, query, limit);
            let tokens = catalog::tokens_from(query, 0);
            &&& b.len() <= limit
            &&& 0 <= b[k].0 < c.len() && 0 <= b[j].0 < c.len()
            &&& b[k].1 == catalog::score_view(c[b[k].0], query, tokens)
            &&& b[k].1 > 0
            &&& b[j].1 >= b[k].1
            &&& b[j].1 == b[k].1 ==> !text::text_before(c[b[k].0].name, c[b[j].0].name)
        }),
{
    let tokens = catalog::tokens_from(query, 0);
    let s = catalog::scored(c, query, tokens, c.len() as int);
    let r = catalog::ranked(c, s);
    let b = catalog::best(c, query, limit);
    catalog::found_tools_fit(c, query, limit);
    lemma_scored_places(c, query, tokens, c.len() as int);
    assert(b[j] == r[j] && b[k] == r[k]);
    lemma_ranked_holds(c, s, r[j]);
    lemma_ranked_holds(c, s, r[k]);
    assert(r.contains(r[j]) && r.contains(r[k]));
    assert(!catalog::ahead(c, b[k], b[j]));
}

/// An entry that fits, where not all that fit may be found, is left out only for entries that are no
/// worse; and no place is left empty for it.
pub proof fn the_worst_are_left_out(
    c: Seq<EntryView>,
    query: Seq<char>,
    limit: nat,
    i: int,
    k: int,
)
    requires
        query.len() > 0,
        0 <= i < c.len(),
        catalog::score_view(c[i], query, catalog::tokens_from(query, 0)) > 0,
        forall|m: int|
            0 <= m < catalog::best(c, query, limit).len() ==> (#[trigger] catalog::best(
                c,
                query,
                limit,
            )[m]).0 != i,
        0 <= k < catalog::best(c, query, limit).len(),
    ensures
        catalog::best(c, query, limit).len() == limit,
        catalog::best(c, query, limit)[k].1 >= catalog::score_view(
            c[i],
            query,
            catalog::tokens_from(query, 0),
        ),
{
    let tokens = catalog::tokens_from(query, 0);
    let s = catalog::scored(c, query, tokens, c.len() as int);
    let r = catalog::ranked(c, s);
    let b = catalog::best(c, query, limit);
    let p = (i, catalog::score_view(c[i], query, tokens));
    catalog::ranking_is_sorted(c, s);
    fitting_entries_are_scored(c, query, tokens, c.len() as int, i);
    lemma_ranked_holds(c, s, p);
    let m = choose|m: int| 0 <= m < r.len() && r[m] == p;
    if m < b.len() {
        assert(b[m] == r[m]);
        assert(b[m].0 == i);
    }
    assert(!catalog::ahead(c, r[m], r[k]));
    assert(b[k] == r[k]);
}

/// No entry is found twice.
pub proof fn entries_are_found_once(c: Seq<EntryView>, query: Seq<char>, limit: nat)
    ensures
        catalog::best(c, query, limit).no_duplicates(),
{
    if query.len() > 0 {
        let tokens = catalog::tokens_from(query, 0);
        let s = catalog::scored(c, query, tokens, c.len() as int);
        let r = catalog::ranked(c, s);
        lemma_scored_places(c, query, tokens, c.len() as int);
        catalog::ranking_is_sorted(c, s);
        assert(s.no_duplicates());
        s.lemma_multiset_has_no_duplicates();
        r.lemma_multiset_has_no_duplicates_conv();
        let b = catalog::best(c, query, limit);
        assert forall|x: int, y: int| 0 <= x < b.len() && 0 <= y < b.len() && x != y implies b[x]
            != b[y] by {
            assert(b[x] == r[x] && b[y] == r[y]);
        }
    }
}

/// One text comes before another where it is its beginning, or where the first character in which
/// they differ is the smaller one.
pub proof fn names_are_ordered_by_their_first_difference(
    front: Seq<char>,
    a: Seq<char>,
    b: Seq<char>,
)
    requires
        a.len() > 0 && b.len() > 0 ==> a[0] != b[0],
    ensures
        text::text_before(front + a, front + b) <==> b.len() > 0 && (a.len() == 0 || a[0] < b[0]),
    decreases front.len(),
{
    if front.len() == 0 {
        assert(front + a =~= a);
        assert(front + b =~= b);
    } else {
        assert((front + a).drop_first() =~= front.drop_first() + a);
        assert((front + b).drop_first() =~= front.drop_first() + b);
        names_are_ordered_by_their_first_difference(front.drop_first(), a, b);
    }
}

proof fn lemma_run_at(s: Seq<char>, i: int, j: int)
    requires
        0 <= i <= j <= s.len(),
        forall|k: int| i <= k < j ==> catalog::alphanumeric(#[trigger] s[k]),
        j == s.len() || !catalog::alphanumeric(s[j]),
    ensures
        catalog::run_end(s, i) == j,
    decreases j - i,
{
    if i < j {
        lemma_run_at(s, i + 1, j);
    }
}

/// The tokens of a query are its words of letters and digits, in lower case; one of fewer than two
/// characters is left out. Anything else parts them.
pub proof fn queries_are_parted_into_words(word: Seq<char>, sep: char, rest: Seq<char>)
    requires
        word.len() > 0,
        forall|k: int| 0 <= k < word.len() ==> catalog::alphanumeric(#[trigger] word[k]),
        !catalog::alphanumeric(sep),
    ensures
        ({
            let first: Seq<Seq<char>> = if word.len() >= 2 {
                seq![catalog::lowercase(word)]
            } else {
                Seq::empty()
            };
            &&& catalog::tokens_from(word, 0) == first
            &&& catalog::tokens_from(word + seq![sep] + rest, 0) == first + catalog::tokens_from(
                rest,
                0,
            )
            &&& catalog::tokens_from(seq![sep] + rest, 0) == catalog::tokens_from(rest, 0)
            &&& catalog::tokens_from(Seq::empty(), 0) == Seq::<Seq<char>>::empty()
        }),
{
    let n = word.len() as int;
    lemma_run_at(word, 0, n);
    assert(catalog::alphanumeric(word[0]));
    assert(word.subrange(0, n) =~= word);
    assert(catalog::tokens_from(word, n) =~= Seq::empty());
    let first: Seq<Seq<char>> = if word.len() >= 2 {
        seq![catalog::lowercase(word)]
    } else {
        Seq::empty()
    };
    assert(first + Seq::<Seq<char>>::empty() =~= first);
    let s = word + seq![sep] + rest;
    assert forall|k: int| 0 <= k < n implies catalog::alphanumeric(#[trigger] s[k]) by {
        assert(s[k] == word[k]);
    }
    assert(s[n] == sep);
    lemma_run_at(s, 0, n);
    assert(s.subrange(0, n) =~= word);
    assert(catalog::alphanumeric(s[0]));
    assert(s =~= (word + seq![sep]) + rest);
    lemma_tokens_shift(word + seq![sep], rest, 0);
    assert(catalog::tokens_from(s, n) == catalog::tokens_from(s, n + 1));
    assert((seq![sep] + rest)[0] == sep);
    lemma_tokens_shift(seq![sep], rest, 0);
}

proof fn lemma_tokens_shift(a: Seq<char>, b: Seq<char>, i: int)
    requires
        0 <= i <= b.len(),
    ensures
        catalog::tokens_from(a + b, a.len() + i) == catalog::tokens_from(b, i),
    decreases b.len() - i,
{
    let s = a + b;
    if i < b.len() {
        assert(s[a.len() + i] == b[i]);
        if !catalog::alphanumeric(b[i]) {
            lemma_tokens_shift(a, b, i + 1);
        } else {
            lemma_run_bounds(b, i);
            let j = catalog::run_end(b, i);
            assert forall|k: int| a.len() + i <= k < a.len() + j implies catalog::alphanumeric(
                #[trigger] s[k],
            ) by {
                assert(s[k] == b[k - a.len()]);
            }
            if j < b.len() {
                assert(s[a.len() + j] == b[j]);
            }
            lemma_run_at(s, a.len() + i, a.len() + j);
            assert(s.subrange(a.len() + i, a.len() + j) =~= b.subrange(i, j));
            lemma_tokens_shift(a, b, j);
        }
    }
}

proof fn lemma_run_bounds(s: Seq<char>, i: int)
    requires
        0 <= i <= s.len(),
    ensures
        i <= catalog::run_end(s, i) <= s.len(),
        forall|k: int| i <= k < catalog::run_end(s, i) ==> catalog::alphanumeric(#[trigger] s[k]),
        catalog::run_end(s, i) < s.len() ==> !catalog::alphanumeric(s[catalog::run_end(s, i)]),
        i < s.len() && catalog::alphanumeric(s[i]) ==> catalog::run_end(s, i) > i,
    decreases s.len() - i,
{
    if i < s.len() && catalog::alphanumeric(s[i]) {
        lemma_run_bounds(s, i + 1);
    }
}

/// A limit that is not given is eight; one that is given is kept between one and thirty-two.
pub proof fn limits_are_kept_in_bounds(n: usize)
    ensures
        catalog::limit_of(None) == 8,
        1 <= n <= 32 ==> catalog::limit_of(Some(n)) == n,
        n == 0 ==> catalog::limit_of(Some(n)) == 1,
        n > 32 ==> catalog::limit_of(Some(n)) == 32,
{
}

/// A request is looked for in lower case and without the white space around it.
pub proof fn requests_are_trimmed_and_lowered(a: Seq<char>, q: Seq<char>, b: Seq<char>)
    requires
        forall|i: int| 0 <= i < a.len() ==> text::white(#[trigger] a[i]),
        forall|i: int| 0 <= i < b.len() ==> text::white(#[trigger] b[i]),
        q.len() > 0,
        !text::white(q[0]),
        !text::white(q.last()),
    ensures
        catalog::needle(Some(a + q + b)) == catalog::lowercase(q),
        catalog::needle(Some(a)).len() == 0,
        catalog::needle(None).len() == 0,
{
    crate::laws::texts::trimming_takes_white_space_alone(a, q, b);
    crate::laws::texts::trimming_takes_white_space_alone(a, Seq::empty(), Seq::empty());
    assert(a + Seq::<char>::empty() + Seq::<char>::empty() =~= a);
}

/// A search answers with what it found, in order: each entry by its name, its description and its
/// tags. The answer and its metadata agree, and name what was asked; the answer counts the catalog.
pub proof fn searches_answer_with_what_they_found(
    c: Seq<EntryView>,
    query: Seq<char>,
    limit: Option<usize>,
    k: int,
)
    requires
        0 <= k < catalog::best(c, query, catalog::limit_of(limit)).len(),
    ensures
        ({
            let r = catalog::search_view(c, query, limit);
            let b = catalog::best(c, query, catalog::limit_of(limit));
            exists|list: Seq<JsonView>, body: JsonView|
                {
                    &&& r.success
                    &&& r.structured_metadata is Some
                    &&& #[trigger] checks::holds(
                        r.structured_metadata->0,
                        "matches"@,
                        JsonView::Array(list),
                    )
                    &&& checks::holds(
                        r.structured_metadata->0,
                        "codex_tool"@,
                        JsonView::Text("tool_search"@),
                    )
                    &&& checks::holds(r.structured_metadata->0, "query"@, JsonView::Text(query))
                    &&& r.output == #[trigger] codec::json_text(body)
                    &&& checks::holds(body, "matches"@, JsonView::Array(list))
                    &&& checks::holds(body, "query"@, JsonView::Text(query))
                    &&& checks::holds(body, "total"@, JsonView::Int(c.len() as int))
                    &&& list.len() == b.len()
                    &&& checks::holds(list[k], "name"@, JsonView::Text(c[b[k].0].name))
                    &&& checks::holds(
                        list[k],
                        "description"@,
                        JsonView::Text(c[b[k].0].description),
                    )
                    &&& checks::holds(list[k], "tags"@, json::texts_view(c[b[k].0].tags))
                }
        }),
{
    let r = catalog::search_view(c, query, limit);
    let b = catalog::best(c, query, catalog::limit_of(limit));
    let results = catalog::shown_found(c, b, false);
    let list = results->Array_0;
    lemma_discovery(
        "tool_search"@,
        "query"@,
        "matches"@,
        query,
        results,
        c.len() as int,
    );
    let body = catalog_body("query"@, "matches"@, query, results, c.len() as int);
    lemma_entry(c[b[k].0], None);
    assert(list[k] == catalog::entry_json(c[b[k].0], None));
    assert(results == JsonView::Array(list));
    assert(r.output == codec::json_text(body));
    assert(checks::holds(r.structured_metadata->0, "matches"@, JsonView::Array(list)));
}

spec fn catalog_body(
    asked: Seq<char>,
    listed: Seq<char>,
    query: Seq<char>,
    results: JsonView,
    total: int,
) -> JsonView {
    JsonView::Object(
        seq![
            (asked, JsonView::Text(query)),
            (listed, results),
            ("total"@, JsonView::Int(total)),
        ],
    )
}

proof fn lemma_discovery(
    tool_name: Seq<char>,
    asked: Seq<char>,
    listed: Seq<char>,
    query: Seq<char>,
    results: JsonView,
    total: int,
)
    ensures
        ({
            let r = catalog::discovery_view(tool_name, asked, listed, query, results, total);
            let body = catalog_body(asked, listed, query, results, total);
            &&& r.success
            &&& r.structured_metadata is Some
            &&& r.output == codec::json_text(body)
            &&& checks::holds(r.structured_metadata->0, listed, results)
            &&& checks::holds(r.structured_metadata->0, "codex_tool"@, JsonView::Text(tool_name))
            &&& checks::holds(r.structured_metadata->0, asked, JsonView::Text(query))
            &&& checks::holds(body, listed, results)
            &&& checks::holds(body, asked, JsonView::Text(query))
            &&& checks::holds(body, "total"@, JsonView::Int(total))
        }),
{
    let r = catalog::discovery_view(tool_name, asked, listed, query, results, total);
    let m = (r.structured_metadata->0)->Object_0;
    assert(m[0] == ("codex_tool"@, JsonView::Text(tool_name)));
    assert(m[1] == (asked, JsonView::Text(query)));
    assert(m[2] == (listed, results));
    let f = catalog_body(asked, listed, query, results, total)->Object_0;
    assert(f[0] == (asked, JsonView::Text(query)));
    assert(f[1] == (listed, results));
    assert(f[2] == ("total"@, JsonView::Int(total)));
    assert(m.contains(m[0]) && m.contains(m[1]) && m.contains(m[2]));
    assert(f.contains(f[0]) && f.contains(f[1]) && f.contains(f[2]));
}

proof fn lemma_entry(e: EntryView, score: Option<int>)
    ensures
        ({
            let j = catalog::entry_json(e, score);
            &&& checks::holds(j, "name"@, JsonView::Text(e.name))
            &&& checks::holds(j, "description"@, JsonView::Text(e.description))
            &&& checks::holds(j, "tags"@, json::texts_view(e.tags))
            &&& score matches Some(n) ==> checks::holds(j, "score"@, JsonView::Int(n))
        }),
{
    let f = catalog::entry_json(e, score)->Object_0;
    assert(f[0] == ("name"@, JsonView::Text(e.name)));
    assert(f[1] == ("description"@, JsonView::Text(e.description)));
    assert(f[2] == ("tags"@, json::texts_view(e.tags)));
    assert(f.contains(f[0]) && f.contains(f[1]) && f.contains(f[2]));
    if let Some(n) = score {
        assert(f[3] == ("score"@, JsonView::Int(n)));
        assert(f.contains(f[3]));
    }
}

/// A suggestion carries the score of its entry besides.
pub proof fn suggestions_carry_their_score(
    c: Seq<EntryView>,
    task: Seq<char>,
    limit: Option<usize>,
    k: int,
)
    requires
        0 <= k < catalog::best(c, task, catalog::limit_of(limit)).len(),
    ensures
        ({
            let r = catalog::suggestion_view(c, task, limit);
            let b = catalog::best(c, task, catalog::limit_of(limit));
            exists|list: Seq<JsonView>|
                {
                    &&& r.success
                    &&& r.structured_metadata is Some
                    &&& #[trigger] checks::holds(
                        r.structured_metadata->0,
                        "suggestions"@,
                        JsonView::Array(list),
                    )
                    &&& checks::holds(
                        r.structured_metadata->0,
                        "codex_tool"@,
                        JsonView::Text("tool_suggest"@),
                    )
                    &&& checks::holds(r.structured_metadata->0, "task"@, JsonView::Text(task))
                    &&& list.len() == b.len()
                    &&& checks::holds(list[k], "name"@, JsonView::Text(c[b[k].0].name))
                    &&& checks::holds(list[k], "score"@, JsonView::Int(b[k].1))
                    &&& checks::holds(list[k], "tags"@, json::texts_view(c[b[k].0].tags))
                }
        }),
{
    let r = catalog::suggestion_view(c, task, limit);
    let b = catalog::best(c, task, catalog::limit_of(limit));
    let results = catalog::shown_found(c, b, true);
    let list = results->Array_0;
    lemma_discovery(
        "tool_suggest"@,
        "task"@,
        "suggestions"@,
        task,
        results,
        c.len() as int,
    );
    lemma_entry(c[b[k].0], Some(b[k].1));
    assert(list[k] == catalog::entry_json(c[b[k].0], Some(b[k].1)));
    assert(results == JsonView::Array(list));
    assert(checks::holds(r.structured_metadata->0, "suggestions"@, JsonView::Array(list)));
}

} // verus!
