//! Finding tools in a catalog: by a query, or for a task.

use vstd::prelude::*;

use crate::codec;
use crate::codec::render_json;
use crate::json;
use crate::json::{text_json, texts_json, Fields, Json, JsonView};
use crate::laws::searches;
use crate::text;
use crate::text::{chars_of, contains, name_before, own, same, string_of, trim};
use crate::tool;
use crate::tool::{detailed, ToolResult, ToolResultView};

verus! {

/// How many tools are listed where no limit is given.
pub const DEFAULT_LIMIT: usize = 8;

/// How many tools are listed at most.
pub const MAX_LIMIT: usize = 32;

/// A tool as the catalog lists it.
#[derive(Debug)]
pub struct ToolCatalogEntry {
    pub name: String,
    pub description: String,
    pub tags: Vec<String>,
}

/// What a [`ToolCatalogEntry`] stands for.
#[verifier::ext_equal]
pub struct EntryView {
    pub name: Seq<char>,
    pub description: Seq<char>,
    pub tags: Seq<Seq<char>>,
}

impl View for ToolCatalogEntry {
    type V = EntryView;

    open spec fn view(&self) -> EntryView {
        EntryView {
            name: self.name@,
            description: self.description@,
            tags: text::views(self.tags@),
        }
    }
}

impl ToolCatalogEntry {
    /// An entry of a catalog.
    pub fn new(name: &str, description: &str, tags: Vec<String>) -> (r: Self)
        ensures
            r@ == (EntryView {
                name: name@,
                description: description@,
                tags: text::views(tags@),
            }),
    {
        let r = ToolCatalogEntry { name: own(name), description: own(description), tags };
        proof {
            assert(r.name@ =~= name@);
            assert(r.description@ =~= description@);
        }
        r
    }
}

/// A text in lower case, as `str::to_lowercase` gives it.
pub uninterp spec fn lowercase(s: Seq<char>) -> Seq<char>;

/// Calls `str::to_lowercase`. The result is named: it follows Unicode tables.
#[verifier::external_body]
fn lower(s: &str) -> (r: String)
    ensures
        r@ == lowercase(s@),
{
    s.to_lowercase()
}

/// Whether a character is a letter or a digit, as `char::is_alphanumeric` says.
pub uninterp spec fn alphanumeric(c: char) -> bool;

/// Calls `char::is_alphanumeric`. The result is named: it follows Unicode tables.
#[verifier::external_body]
fn is_alphanumeric(c: char) -> (r: bool)
    ensures
        r == alphanumeric(c),
{
    c.is_alphanumeric()
}

/// The end of the run of letters and digits that `i` stands in.
pub open spec fn run_end(s: Seq<char>, i: int) -> int
    decreases s.len() - i,
{
    if i >= s.len() || !alphanumeric(s[i]) {
        i
    } else {
        run_end(s, i + 1)
    }
}

proof fn lemma_run_end(s: Seq<char>, i: int)
    requires
        i <= s.len(),
    ensures
        i <= run_end(s, i) <= s.len(),
    decreases s.len() - i,
{
    if i < s.len() && alphanumeric(s[i]) {
        lemma_run_end(s, i + 1);
    }
}

/// The tokens of `s` from position `i` on: the runs of letters and digits, in lower case,
/// without those shorter than two characters.
pub open spec fn tokens_from(s: Seq<char>, i: int) -> Seq<Seq<char>>
    decreases s.len() - i,
{
    if i < 0 || i >= s.len() {
        Seq::empty()
    } else if !alphanumeric(s[i]) {
        tokens_from(s, i + 1)
    } else {
        let j = run_end(s, i);
        if i < j <= s.len() {
            (if j - i >= 2 {
                seq![lowercase(s.subrange(i, j))]
            } else {
                Seq::empty()
            }) + tokens_from(s, j)
        } else {
            Seq::empty()
        }
    }
}

/// The tokens of a query: its words of at least two characters, in lower case.
pub fn tokenize_query(query: &str) -> (r: Vec<String>)
    ensures
        text::views(r@) == tokens_from(query@, 0),
{
    let v = chars_of(query);
    let mut out: Vec<String> = Vec::new();
    let mut i: usize = 0;
    proof {
        text::lemma_views_empty(out@);
        assert(text::views(out@) + tokens_from(v@, 0) =~= tokens_from(v@, 0));
    }
    while i < v.len()
        invariant
            i <= v.len(),
            v@ == query@,
            text::views(out@) + tokens_from(v@, i as int) == tokens_from(v@, 0),
        decreases v.len() - i,
    {
        broadcast use text::lemma_views_push;

        if !is_alphanumeric(v[i]) {
            i += 1;
        } else {
            let mut j: usize = i;
            while j < v.len() && is_alphanumeric(v[j])
                invariant
                    i <= j <= v.len(),
                    run_end(v@, i as int) == run_end(v@, j as int),
                decreases v.len() - j,
            {
                j += 1;
            }
            assert(i < j) by {
                lemma_run_end(v@, i + 1);
            }
            let ghost before = text::views(out@);
            if j - i >= 2 {
                out.push(lower(&string_of(&v, i, j)));
            }
            assert(text::views(out@) + tokens_from(v@, j as int) =~= before + tokens_from(
                v@,
                i as int,
            ));
            i = j;
        }
    }
    assert(text::views(out@) + tokens_from(v@, i as int) =~= text::views(out@));
    out
}

/// Whether a tag holds a token.
pub open spec fn tagged(tags: Seq<Seq<char>>, token: Seq<char>) -> bool {
    exists|i: int| 0 <= i < tags.len() && text::has(#[trigger] tags[i], token)
}

/// What a token adds to a score.
pub open spec fn token_score(e: EntryView, token: Seq<char>) -> int {
    (if text::has(e.name, token) {
        8int
    } else {
        0
    }) + (if text::has(e.description, token) {
        3int
    } else {
        0
    }) + (if tagged(e.tags, token) {
        4int
    } else {
        0
    })
}

/// What the first `n` tokens add to a score.
pub open spec fn tokens_score(e: EntryView, tokens: Seq<Seq<char>>, n: int) -> int
    decreases n,
{
    if n <= 0 {
        0
    } else {
        tokens_score(e, tokens, n - 1) + token_score(e, tokens[n - 1])
    }
}

/// What the query as a whole adds to a score: most where it is the name.
pub open spec fn query_score(e: EntryView, query: Seq<char>) -> int {
    if query.len() == 0 {
        0
    } else {
        (if e.name == query {
            100int
        } else if text::has(e.name, query) {
            50
        } else {
            0
        }) + (if text::has(e.description, query) {
            10int
        } else {
            0
        })
    }
}

/// A score, which stops growing at the largest `i32`.
pub open spec fn bounded(n: int) -> int {
    if n <= i32::MAX {
        n
    } else {
        i32::MAX as int
    }
}

/// How well an entry, in lower case, fits a query.
pub open spec fn lowered_score(e: EntryView, query: Seq<char>, tokens: Seq<Seq<char>>) -> int {
    bounded(query_score(e, query) + tokens_score(e, tokens, tokens.len() as int))
}

/// An entry in lower case.
pub open spec fn lowered(e: EntryView) -> EntryView {
    EntryView {
        name: lowercase(e.name),
        description: lowercase(e.description),
        tags: e.tags.map_values(|t: Seq<char>| lowercase(t)),
    }
}

/// How well an entry fits a query.
pub open spec fn score_view(e: EntryView, query: Seq<char>, tokens: Seq<Seq<char>>) -> int {
    lowered_score(lowered(e), query, tokens)
}

fn any_tag(tags: &Vec<String>, token: &str) -> (r: bool)
    ensures
        r == tagged(text::views(tags@), token@),
{
    let mut i: usize = 0;
    while i < tags.len()
        invariant
            i <= tags.len(),
            forall|k: int| 0 <= k < i ==> !text::has(#[trigger] text::views(tags@)[k], token@),
        decreases tags.len() - i,
    {
        assert(text::views(tags@)[i as int] == tags@[i as int]@);
        if contains(&tags[i], token) {
            return true;
        }
        i += 1;
    }
    false
}

fn raise(score: i32, by: i32) -> (r: i32)
    requires
        0 <= score,
        0 <= by,
    ensures
        r == bounded(score + by),
{
    if score > i32::MAX - by {
        i32::MAX
    } else {
        score + by
    }
}

proof fn lemma_tokens_score(e: EntryView, tokens: Seq<Seq<char>>, n: int)
    ensures
        tokens_score(e, tokens, n) >= 0,
    decreases n,
{
    if n > 0 {
        lemma_tokens_score(e, tokens, n - 1);
    }
}

proof fn lemma_token_counts(e: EntryView, tokens: Seq<Seq<char>>, n: int, k: int)
    requires
        0 <= k < n,
        token_score(e, tokens[k]) > 0,
    ensures
        tokens_score(e, tokens, n) > 0,
    decreases n,
{
    lemma_tokens_score(e, tokens, n - 1);
    if k < n - 1 {
        lemma_token_counts(e, tokens, n - 1, k);
    }
}

/// How well an entry that is in lower case fits a query.
pub fn score_lowered(entry: &ToolCatalogEntry, query: &str, tokens: &Vec<String>) -> (r: i32)
    ensures
        r == lowered_score(entry@, query@, text::views(tokens@)),
        r >= 0,
        (exists|k: int|
            0 <= k < tokens@.len() && (text::has(entry@.name, #[trigger] tokens@[k]@) || text::has(
                entry@.description,
                tokens@[k]@,
            ) || tagged(entry@.tags, tokens@[k]@))) ==> r > 0,
{
    proof {
        if exists|k: int|
            0 <= k < tokens@.len() && (text::has(entry@.name, #[trigger] tokens@[k]@) || text::has(
                entry@.description,
                tokens@[k]@,
            ) || tagged(entry@.tags, tokens@[k]@)) {
            let k = choose|k: int|
                0 <= k < tokens@.len() && (text::has(entry@.name, #[trigger] tokens@[k]@)
                    || text::has(entry@.description, tokens@[k]@) || tagged(
                    entry@.tags,
                    tokens@[k]@,
                ));
            lemma_token_counts(entry@, text::views(tokens@), tokens@.len() as int, k);
        }
    }
    let ghost e = entry@;
    let ghost ts = text::views(tokens@);
    let mut score: i32 = 0;
    if !query.is_empty() {
        if same(&entry.name, query) {
            score = 100;
        } else if contains(&entry.name, query) {
            score = 50;
        }
        if contains(&entry.description, query) {
            score = score + 10;
        }
    }
    assert(score == query_score(e, query@));
    let mut i: usize = 0;
    while i < tokens.len()
        invariant
            i <= tokens.len(),
            e == entry@,
            ts == text::views(tokens@),
            score >= 0,
            query_score(e, query@) >= 0,
            score == bounded(query_score(e, query@) + tokens_score(e, ts, i as int)),
        decreases tokens.len() - i,
    {
        assert(ts[i as int] == tokens@[i as int]@);
        proof {
            lemma_tokens_score(e, ts, i as int);
        }
        let token = &tokens[i];
        if contains(&entry.name, token) {
            score = raise(score, 8);
        }
        if contains(&entry.description, token) {
            score = raise(score, 3);
        }
        if any_tag(&entry.tags, token) {
            score = raise(score, 4);
        }
        i += 1;
    }
    score
}

fn lower_all(tags: &Vec<String>) -> (r: Vec<String>)
    ensures
        text::views(r@) == text::views(tags@).map_values(|t: Seq<char>| lowercase(t)),
{
    let mut out: Vec<String> = Vec::new();
    let mut i: usize = 0;
    while i < tags.len()
        invariant
            i <= tags.len(),
            out.len() == i,
            forall|k: int| 0 <= k < i ==> #[trigger] out@[k]@ == lowercase(tags@[k]@),
        decreases tags.len() - i,
    {
        out.push(lower(&tags[i]));
        i += 1;
    }
    assert(text::views(out@) =~= text::views(tags@).map_values(|t: Seq<char>| lowercase(t)));
    out
}

/// How well an entry fits a query that is in lower case, and its tokens.
pub fn catalog_score(entry: &ToolCatalogEntry, query: &str, tokens: &Vec<String>) -> (r: i32)
    ensures
        r == score_view(entry@, query@, text::views(tokens@)),
        r >= 0,
        (exists|k: int|
            0 <= k < tokens@.len() && searches::mentions(entry@, #[trigger] text::views(tokens@)[k]))
            ==> r > 0,
{
    proof {
        searches::entries_fit_what_they_mention(entry@, query@, text::views(tokens@));
    }
    let low = ToolCatalogEntry {
        name: lower(&entry.name),
        description: lower(&entry.description),
        tags: lower_all(&entry.tags),
    };
    assert(low@ == lowered(entry@));
    score_lowered(&low, query, tokens)
}

/// Whether the scored entry `a` comes before `b`: by a higher score, then by name.
pub open spec fn ahead(c: Seq<EntryView>, a: (int, int), b: (int, int)) -> bool {
    a.1 > b.1 || (a.1 == b.1 && text::text_before(c[a.0].name, c[b.0].name))
}

/// The place before which a scored entry goes: that of the first one it is ahead of.
pub open spec fn place_from(
    c: Seq<EntryView>,
    s: Seq<(int, int)>,
    x: (int, int),
    i: int,
) -> int
    decreases s.len() - i,
{
    if i >= s.len() {
        s.len() as int
    } else if ahead(c, x, s[i]) {
        i
    } else {
        place_from(c, s, x, i + 1)
    }
}

/// The scored entries in order, the best first; equal ones keep the order they had.
pub open spec fn ranked(c: Seq<EntryView>, s: Seq<(int, int)>) -> Seq<(int, int)>
    decreases s.len(),
{
    if s.len() == 0 {
        Seq::empty()
    } else {
        let before = ranked(c, s.drop_last());
        before.insert(place_from(c, before, s.last(), 0), s.last())
    }
}

/// The entries, by their place in the catalog, that fit a query at all, with their scores,
/// among the first `n`.
pub open spec fn scored(
    c: Seq<EntryView>,
    query: Seq<char>,
    tokens: Seq<Seq<char>>,
    n: int,
) -> Seq<(int, int)>
    decreases n,
{
    if n <= 0 {
        Seq::empty()
    } else {
        let before = scored(c, query, tokens, n - 1);
        let score = score_view(c[n - 1], query, tokens);
        if score > 0 {
            before.push((n - 1, score))
        } else {
            before
        }
    }
}

/// The first `limit` of a list.
pub open spec fn first_of<T>(s: Seq<T>, limit: nat) -> Seq<T> {
    if s.len() <= limit {
        s
    } else {
        s.take(limit as int)
    }
}

/// The entries that fit a query best, with their scores; the first ones where there is no
/// query.
pub open spec fn best(c: Seq<EntryView>, query: Seq<char>, limit: nat) -> Seq<(int, int)> {
    if query.len() == 0 {
        first_of(Seq::new(c.len(), |i: int| (i, 0int)), limit)
    } else {
        first_of(
            ranked(c, scored(c, query, tokens_from(query, 0), c.len() as int)),
            limit,
        )
    }
}

/// A list of places and scores.
pub open spec fn ints(v: Seq<(usize, i32)>) -> Seq<(int, int)> {
    v.map_values(|p: (usize, i32)| (p.0 as int, p.1 as int))
}

proof fn lemma_place(c: Seq<EntryView>, s: Seq<(int, int)>, x: (int, int), i: int)
    requires
        0 <= i <= s.len(),
    ensures
        i <= place_from(c, s, x, i) <= s.len(),
        forall|k: int| i <= k < place_from(c, s, x, i) ==> !ahead(c, x, #[trigger] s[k]),
        place_from(c, s, x, i) < s.len() ==> ahead(c, x, s[place_from(c, s, x, i)]),
    decreases s.len() - i,
{
    if i < s.len() && !ahead(c, x, s[i]) {
        lemma_place(c, s, x, i + 1);
    }
}

/// Puts a scored entry in its place.
fn insert_ranked(catalog: &Vec<ToolCatalogEntry>, list: &mut Vec<(usize, i32)>, x: (usize, i32))
    requires
        x.0 < catalog.len(),
        forall|k: int| 0 <= k < old(list).len() ==> (#[trigger] old(list)@[k]).0 < catalog.len(),
    ensures
        forall|k: int| 0 <= k < final(list).len() ==> (#[trigger] final(list)@[k]).0 < catalog.len(),
        ints(final(list)@) == ints(old(list)@).insert(
            place_from(
                text::views(catalog@),
                ints(old(list)@),
                (x.0 as int, x.1 as int),
                0,
            ),
            (x.0 as int, x.1 as int),
        ),
{
    let ghost c = text::views(catalog@);
    let ghost s = ints(list@);
    let ghost y = (x.0 as int, x.1 as int);
    let mut i: usize = 0;
    while i < list.len()
        invariant_except_break
            i <= list.len(),
            list@ == old(list)@,
            c == text::views(catalog@),
            s == ints(list@),
            y == (x.0 as int, x.1 as int),
            x.0 < catalog.len(),
            forall|k: int| 0 <= k < list.len() ==> (#[trigger] list@[k]).0 < catalog.len(),
            place_from(c, s, y, 0) == place_from(c, s, y, i as int),
        ensures
            list@ == old(list)@,
            i <= list.len(),
            place_from(c, s, y, 0) == i,
        decreases list.len() - i,
    {
        let e: (usize, i32) = list[i];
        assert(s[i as int] == (e.0 as int, e.1 as int));
        assert(c[e.0 as int].name == catalog@[e.0 as int].name@);
        assert(c[x.0 as int].name == catalog@[x.0 as int].name@);
        if x.1 > e.1 || (x.1 == e.1 && name_before(&catalog[x.0].name, &catalog[e.0].name)) {
            break;
        }
        i += 1;
    }
    list.insert(i, x);
    assert(ints(list@) =~= s.insert(i as int, y));
    assert forall|k: int| 0 <= k < list.len() implies (#[trigger] list@[k]).0 < catalog.len() by {
        if k < i {
            assert(list@[k] == old(list)@[k]);
        } else if k > i {
            assert(list@[k] == old(list)@[k - 1]);
        }
    }
}

/// The entries that fit a task best, by their places in the catalog, with their scores.
pub fn suggest_catalog(catalog: &Vec<ToolCatalogEntry>, task: &str, limit: usize) -> (r: Vec<
    (usize, i32),
>)
    ensures
        ints(r@) == best(text::views(catalog@), task@, limit as nat),
        forall|k: int| 0 <= k < r.len() ==> (#[trigger] r@[k]).0 < catalog.len(),
        r.len() <= limit,
{
    let ghost c = text::views(catalog@);
    let mut list: Vec<(usize, i32)> = Vec::new();
    let mut i: usize = 0;
    if task.is_empty() {
        let ghost want = Seq::new(c.len(), |i: int| (i, 0int));
        while i < catalog.len() && i < limit
            invariant
                i <= catalog.len(),
                i <= limit,
                c == text::views(catalog@),
                want == Seq::new(c.len(), |i: int| (i, 0int)),
                ints(list@) == want.take(i as int),
                list.len() == i,
                forall|k: int| 0 <= k < list.len() ==> (#[trigger] list@[k]).0 < catalog.len(),
            decreases catalog.len() - i,
        {
            list.push((i, 0));
            i += 1;
            assert(ints(list@) =~= want.take(i as int));
        }
        assert(want.take(i as int) =~= first_of(want, limit as nat));
        return list;
    }
    let tokens = tokenize_query(task);
    let ghost ts = tokens_from(task@, 0);
    assert(ints(list@) =~= ranked(c, scored(c, task@, ts, 0)));
    while i < catalog.len()
        invariant
            i <= catalog.len(),
            c == text::views(catalog@),
            ts == text::views(tokens@),
            ints(list@) == ranked(c, scored(c, task@, ts, i as int)),
            forall|k: int| 0 <= k < list.len() ==> (#[trigger] list@[k]).0 < catalog.len(),
        decreases catalog.len() - i,
    {
        assert(c[i as int] == catalog@[i as int]@);
        let score: i32 = catalog_score(&catalog[i], task, &tokens);
        if score > 0 {
            let ghost s = scored(c, task@, ts, i as int);
            assert(s.push((i as int, score as int)).drop_last() =~= s);
            insert_ranked(catalog, &mut list, (i, score));
        }
        i += 1;
    }
    let ghost all = list@;
    if list.len() > limit {
        list.truncate(limit);
        assert(ints(list@) =~= ints(all).take(limit as int));
    }
    assert(ints(list@) =~= first_of(ints(all), limit as nat));
    list
}

/// The places of scored entries.
pub open spec fn places(s: Seq<(int, int)>) -> Seq<int> {
    s.map_values(|p: (int, int)| p.0)
}

/// The entries that fit a query best, by their places in the catalog.
pub fn search_catalog(catalog: &Vec<ToolCatalogEntry>, query: &str, limit: usize) -> (r: Vec<usize>)
    ensures
        r@.map_values(|i: usize| i as int) == places(
            best(text::views(catalog@), query@, limit as nat),
        ),
        forall|k: int| 0 <= k < r.len() ==> #[trigger] r@[k] < catalog.len(),
        r.len() <= limit,
{
    let found = suggest_catalog(catalog, query, limit);
    let mut out: Vec<usize> = Vec::new();
    let mut i: usize = 0;
    while i < found.len()
        invariant
            i <= found.len(),
            out.len() == i,
            forall|k: int| 0 <= k < found.len() ==> (#[trigger] found@[k]).0 < catalog.len(),
            forall|k: int| 0 <= k < i ==> #[trigger] out@[k] == found@[k].0,
        decreases found.len() - i,
    {
        out.push(found[i].0);
        i += 1;
    }
    assert(out@.map_values(|i: usize| i as int) =~= places(ints(found@)));
    out
}

/// Whether scored entries are in order: none is ahead of one before it.
pub open spec fn in_order(c: Seq<EntryView>, s: Seq<(int, int)>) -> bool {
    forall|i: int, j: int| 0 <= i < j < s.len() ==> !ahead(c, #[trigger] s[j], #[trigger] s[i])
}

proof fn lemma_ahead_chain(c: Seq<EntryView>, x: (int, int), y: (int, int), z: (int, int))
    requires
        ahead(c, x, y),
        !ahead(c, z, y),
    ensures
        !ahead(c, z, x),
{
    let (a, b, d) = (c[x.0].name, c[y.0].name, c[z.0].name);
    text::lemma_text_before_total(b, d);
    text::lemma_text_before_total(a, d);
    text::lemma_text_before_total(a, b);
    if x.1 == y.1 && y.1 == z.1 && text::text_before(d, a) {
        text::lemma_text_before_chain(d, a, b);
    }
}

/// Ranking puts the best first, names in order where scores are equal, and neither loses nor
/// adds an entry.
pub proof fn ranking_is_sorted(c: Seq<EntryView>, s: Seq<(int, int)>)
    ensures
        in_order(c, ranked(c, s)),
        ranked(c, s).to_multiset() == s.to_multiset(),
        ranked(c, s).len() == s.len(),
    decreases s.len(),
{
    broadcast use vstd::seq_lib::group_to_multiset_ensures;

    if s.len() > 0 {
        let before = ranked(c, s.drop_last());
        let x = s.last();
        ranking_is_sorted(c, s.drop_last());
        lemma_place(c, before, x, 0);
        let p = place_from(c, before, x, 0);
        let r = before.insert(p, x);
        assert(s =~= s.drop_last().push(x));
        vstd::seq_lib::to_multiset_insert(before, p, x);
        vstd::seq_lib::to_multiset_build(s.drop_last(), x);
        assert forall|i: int, j: int| 0 <= i < j < r.len() implies !ahead(
            c,
            #[trigger] r[j],
            #[trigger] r[i],
        ) by {
            if i == p {
                assert(r[j] == before[j - 1]);
                if j - 1 > p {
                    assert(!ahead(c, before[j - 1], before[p]));
                } else {
                    text::lemma_text_before_total(c[before[p].0].name, c[before[p].0].name);
                }
                lemma_ahead_chain(c, x, before[p], before[j - 1]);
            } else if j == p {
                assert(r[i] == before[i]);
            } else {
                let a = if i < p {
                    i
                } else {
                    i - 1
                };
                let b = if j < p {
                    j
                } else {
                    j - 1
                };
                assert(r[i] == before[a]);
                assert(r[j] == before[b]);
            }
        }
    } else {
        assert(ranked(c, s) =~= s);
    }
}

/// At most so many tools are found, and each of them fits the query at all, where there is
/// one.
pub proof fn found_tools_fit(c: Seq<EntryView>, query: Seq<char>, limit: nat)
    ensures
        best(c, query, limit).len() <= limit,
        query.len() > 0 ==> forall|i: int|
            0 <= i < best(c, query, limit).len() ==> (#[trigger] best(c, query, limit)[i]).1 > 0,
        query.len() > 0 ==> in_order(c, best(c, query, limit)),
{
    if query.len() > 0 {
        let s = scored(c, query, tokens_from(query, 0), c.len() as int);
        let r = ranked(c, s);
        ranking_is_sorted(c, s);
        lemma_scored(c, query, tokens_from(query, 0), c.len() as int);
        assert forall|i: int| 0 <= i < r.len() implies (#[trigger] r[i]).1 > 0 by {
            vstd::seq_lib::to_multiset_contains(r, r[i]);
            vstd::seq_lib::to_multiset_contains(s, r[i]);
            assert(r.contains(r[i]));
            let k = choose|k: int| 0 <= k < s.len() && s[k] == r[i];
            assert(s[k].1 > 0);
        }
    }
}

proof fn lemma_scored(c: Seq<EntryView>, query: Seq<char>, tokens: Seq<Seq<char>>, n: int)
    ensures
        forall|i: int|
            0 <= i < scored(c, query, tokens, n).len() ==> (#[trigger] scored(
                c,
                query,
                tokens,
                n,
            )[i]).1 > 0,
    decreases n,
{
    if n > 0 {
        lemma_scored(c, query, tokens, n - 1);
        let before = scored(c, query, tokens, n - 1);
        let all = scored(c, query, tokens, n);
        assert forall|i: int| 0 <= i < all.len() implies (#[trigger] all[i]).1 > 0 by {
            if i < before.len() {
                assert(all[i] == before[i]);
            }
        }
    }
}

/// A limit as it is applied.
pub open spec fn limit_of(given: Option<usize>) -> nat {
    match given {
        None => DEFAULT_LIMIT as nat,
        Some(n) => if n < 1 {
            1
        } else if n > MAX_LIMIT {
            MAX_LIMIT as nat
        } else {
            n as nat
        },
    }
}

fn apply_limit(given: Option<usize>) -> (r: usize)
    ensures
        r == limit_of(given),
{
    match given {
        None => DEFAULT_LIMIT,
        Some(n) => if n < 1 {
            1
        } else if n > MAX_LIMIT {
            MAX_LIMIT
        } else {
            n
        },
    }
}

/// An entry as it is shown, with its score where one is.
pub open spec fn entry_json(e: EntryView, score: Option<int>) -> JsonView {
    let shown = seq![
        ("name"@, JsonView::Text(e.name)),
        ("description"@, JsonView::Text(e.description)),
        ("tags"@, json::texts_view(e.tags)),
    ];
    match score {
        Some(n) => JsonView::Object(shown.push(("score"@, JsonView::Int(n)))),
        None => JsonView::Object(shown),
    }
}

fn show_entry(e: &ToolCatalogEntry, score: Option<i32>) -> (r: Json)
    ensures
        r@ == entry_json(
            e@,
            match score {
                Some(n) => Some(n as int),
                None => None,
            },
        ),
{
    let shown = Fields::new().with("name", text_json(&e.name)).with(
        "description",
        text_json(&e.description),
    ).with("tags", texts_json(&e.tags));
    assert(shown@ =~= seq![
        ("name"@, JsonView::Text(e@.name)),
        ("description"@, JsonView::Text(e@.description)),
        ("tags"@, json::texts_view(e@.tags)),
    ]);
    match score {
        Some(n) => shown.with("score", Json::Negative(n as i64)).object(),
        None => shown.object(),
    }
}

/// The entries that were found, as they are shown.
pub open spec fn shown_found(c: Seq<EntryView>, found: Seq<(int, int)>, with_score: bool) -> JsonView {
    JsonView::Array(
        found.map_values(
            |p: (int, int)|
                entry_json(
                    c[p.0],
                    if with_score {
                        Some(p.1)
                    } else {
                        None
                    },
                ),
        ),
    )
}

fn show_found(catalog: &Vec<ToolCatalogEntry>, found: &Vec<(usize, i32)>, with_score: bool) -> (r:
    Json)
    requires
        forall|k: int| 0 <= k < found.len() ==> (#[trigger] found@[k]).0 < catalog.len(),
    ensures
        r@ == shown_found(text::views(catalog@), ints(found@), with_score),
{
    broadcast use json::lemma_array_view;

    let ghost c = text::views(catalog@);
    let ghost want = shown_found(c, ints(found@), with_score)->Array_0;
    let mut out: Vec<Json> = Vec::new();
    let mut i: usize = 0;
    while i < found.len()
        invariant
            i <= found.len(),
            out.len() == i,
            c == text::views(catalog@),
            want == shown_found(c, ints(found@), with_score)->Array_0,
            forall|k: int| 0 <= k < found.len() ==> (#[trigger] found@[k]).0 < catalog.len(),
            forall|k: int| 0 <= k < i ==> (#[trigger] out@[k])@ == want[k],
        decreases found.len() - i,
    {
        let e: (usize, i32) = found[i];
        assert(c[e.0 as int] == catalog@[e.0 as int]@);
        assert(ints(found@)[i as int] == (e.0 as int, e.1 as int));
        let score: Option<i32> = if with_score {
            Some(e.1)
        } else {
            None
        };
        out.push(show_entry(&catalog[e.0], score));
        i += 1;
    }
    assert(text::views(out@) =~= want);
    Json::Array(out)
}

/// What a search of the catalog answers: `asked` names the request, `listed` the results.
pub open spec fn discovery_view(
    tool_name: Seq<char>,
    asked: Seq<char>,
    listed: Seq<char>,
    query: Seq<char>,
    results: JsonView,
    total: int,
) -> ToolResultView {
    tool::detailed_view(
        codec::json_text(
            JsonView::Object(
                seq![
                    (asked, JsonView::Text(query)),
                    (listed, results),
                    ("total"@, JsonView::Int(total)),
                ],
            ),
        ),
        true,
        JsonView::Object(
            seq![
                ("codex_tool"@, JsonView::Text(tool_name)),
                (asked, JsonView::Text(query)),
                (listed, results),
            ],
        ),
    )
}

fn discovery(
    tool_name: &str,
    asked: &str,
    listed: &str,
    query: &str,
    results: Json,
    total: usize,
) -> (r: ToolResult)
    ensures
        r@ == discovery_view(tool_name@, asked@, listed@, query@, results@, total as int),
{
    let body = Fields::new().with(asked, text_json(query)).with(listed, results.copy()).with(
        "total",
        Json::Unsigned(total as u64),
    );
    assert(body@ =~= seq![
        (asked@, JsonView::Text(query@)),
        (listed@, results@),
        ("total"@, JsonView::Int(total as int)),
    ]);
    let notes = Fields::new().with("codex_tool", text_json(tool_name)).with(
        asked,
        text_json(query),
    ).with(listed, results);
    assert(notes@ =~= seq![
        ("codex_tool"@, JsonView::Text(tool_name@)),
        (asked@, JsonView::Text(query@)),
        (listed@, results@),
    ]);
    detailed(render_json(&body.object()), true, notes.object())
}

/// What a search for a query in lower case answers.
pub open spec fn search_view(
    c: Seq<EntryView>,
    query: Seq<char>,
    limit: Option<usize>,
) -> ToolResultView {
    discovery_view(
        "tool_search"@,
        "query"@,
        "matches"@,
        query,
        shown_found(c, best(c, query, limit_of(limit)), false),
        c.len() as int,
    )
}

/// What a request for suggestions for a task in lower case answers.
pub open spec fn suggestion_view(
    c: Seq<EntryView>,
    task: Seq<char>,
    limit: Option<usize>,
) -> ToolResultView {
    discovery_view(
        "tool_suggest"@,
        "task"@,
        "suggestions"@,
        task,
        shown_found(c, best(c, task, limit_of(limit)), true),
        c.len() as int,
    )
}

/// A request as it is looked for: trimmed and in lower case; nothing where there is none, or
/// only white space.
pub open spec fn needle(given: Option<Seq<char>>) -> Seq<char> {
    match given {
        Some(q) => if text::trim_view(q).len() == 0 {
            Seq::empty()
        } else {
            lowercase(text::trim_view(q))
        },
        None => Seq::empty(),
    }
}

/// A search without a query, or with one of white space alone, finds the head of the catalog, in
/// its order.
pub proof fn searches_without_a_query_find_the_head(
    c: Seq<EntryView>,
    given: Option<Seq<char>>,
    limit: Option<usize>,
)
    requires
        given matches Some(q) ==> text::trim_view(q).len() == 0,
    ensures
        ({
            let found = best(c, needle(given), limit_of(limit));
            &&& found.len() == (if c.len() < limit_of(limit) {
                c.len()
            } else {
                limit_of(limit)
            })
            &&& forall|i: int| 0 <= i < found.len() ==> #[trigger] found[i] == (i, 0int)
        }),
{
}

fn needle_of(given: Option<&str>) -> (r: String)
    ensures
        r@ == needle(
            match given {
                Some(q) => Some(q@),
                None => None,
            },
        ),
{
    let wanted = match given {
        Some(q) => trim(q),
        None => String::new(),
    };
    if wanted.as_str().is_empty() {
        let none = String::new();
        assert(none@ =~= Seq::<char>::empty());
        none
    } else {
        lower(&wanted)
    }
}

/// Finds tools by a query.
#[derive(Debug)]
pub struct ToolSearchTool {
    pub catalog: Vec<ToolCatalogEntry>,
}

impl ToolSearchTool {
    /// A tool that searches a catalog.
    pub fn new(catalog: Vec<ToolCatalogEntry>) -> (r: Self)
        ensures
            r.catalog == catalog,
    {
        ToolSearchTool { catalog }
    }

    /// The tool's name.
    pub fn name(&self) -> (r: &'static str)
        ensures
            r@ == "tool_search"@,
    {
        "tool_search"
    }

    /// Answers a query.
    pub fn execute(&self, query: Option<&str>, limit: Option<usize>) -> (r: ToolResult)
        ensures
            r@ == search_view(
                text::views(self.catalog@),
                needle(
                    match query {
                        Some(q) => Some(q@),
                        None => None,
                    },
                ),
                limit,
            ),
    {
        let wanted = needle_of(query);
        self.search(&wanted, limit)
    }

    /// Answers a query that is in lower case.
    pub fn search(&self, query: &str, limit: Option<usize>) -> (r: ToolResult)
        ensures
            r@ == search_view(text::views(self.catalog@), query@, limit),
    {
        let found = suggest_catalog(&self.catalog, query, apply_limit(limit));
        let results = show_found(&self.catalog, &found, false);
        discovery("tool_search", "query", "matches", query, results, self.catalog.len())
    }
}

/// Suggests tools for a task.
#[derive(Debug)]
pub struct ToolSuggestTool {
    pub catalog: Vec<ToolCatalogEntry>,
}

impl ToolSuggestTool {
    /// A tool that suggests from a catalog.
    pub fn new(catalog: Vec<ToolCatalogEntry>) -> (r: Self)
        ensures
            r.catalog == catalog,
    {
        ToolSuggestTool { catalog }
    }

    /// The tool's name.
    pub fn name(&self) -> (r: &'static str)
        ensures
            r@ == "tool_suggest"@,
    {
        "tool_suggest"
    }

    /// Answers a request for suggestions; the task may be given as a query as well.
    pub fn execute(&self, task: Option<&str>, query: Option<&str>, limit: Option<usize>) -> (r:
        ToolResult)
        ensures
            r@ == suggestion_view(
                text::views(self.catalog@),
                needle(
                    match (task, query) {
                        (Some(t), _) => Some(t@),
                        (None, Some(q)) => Some(q@),
                        (None, None) => None,
                    },
                ),
                limit,
            ),
    {
        let given: Option<&str> = match task {
            Some(t) => Some(t),
            None => query,
        };
        let wanted = needle_of(given);
        self.suggest(&wanted, limit)
    }

    /// Answers a request for suggestions for a task that is in lower case.
    pub fn suggest(&self, task: &str, limit: Option<usize>) -> (r: ToolResult)
        ensures
            r@ == suggestion_view(text::views(self.catalog@), task@, limit),
    {
        let found = suggest_catalog(&self.catalog, task, apply_limit(limit));
        let results = show_found(&self.catalog, &found, true);
        discovery("tool_suggest", "task", "suggestions", task, results, self.catalog.len())
    }
}

} // verus!
