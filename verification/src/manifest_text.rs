//! Profiles as JSON texts: what is written is read back.

use vstd::prelude::*;

use crate::codec;
use crate::codec::render_json;
use crate::json;
use crate::json::JsonView;
use crate::manifest;
use crate::profile;
use crate::profile::{
    CompactionView, PreferencesView, ProfileDefinition, ProfileView, ToolsView,
};

verus! {

proof fn lemma_found(fields: Seq<(Seq<char>, JsonView)>, key: Seq<char>, i: int)
    requires
        0 <= i,
    ensures
        match json::member_from(fields, key, i) {
            None => forall|a: int| i <= a < fields.len() ==> (#[trigger] fields[a]).0 != key,
            Some(v) => exists|a: int|
                i <= a < fields.len() && (#[trigger] fields[a]).0 == key && fields[a].1 == v,
        },
    decreases fields.len() - i,
{
    if i < fields.len() {
        if fields[i].0 == key {
            assert(fields[i].1 == json::member_from(fields, key, i)->0);
        } else {
            lemma_found(fields, key, i + 1);
        }
    }
}

/// What is kept of a member.
proof fn lemma_member(j: JsonView, k: JsonView, key: Seq<char>, depth: nat)
    requires
        j is Object,
        codec::keeps(j, k),
        codec::plain(j, depth),
    ensures
        k is Object,
        match (json::member(j, key), json::member(k, key)) {
            (None, None) => true,
            (Some(x), Some(y)) => codec::keeps(x, y) && depth > 0 && codec::plain(
                x,
                (depth - 1) as nat,
            ),
            _ => false,
        },
{
    let f = j->Object_0;
    let g = k->Object_0;
    lemma_found(f, key, 0);
    lemma_found(g, key, 0);
    if json::member(k, key) is Some {
        let x = choose|a: int|
            0 <= a < g.len() && (#[trigger] g[a]).0 == key && g[a].1 == json::member(k, key)->0;
        let y = choose|y: int|
            0 <= y < f.len() && codec::last_of_name(f, y) && f[y].0 == g[x].0 && codec::keeps(
                (#[trigger] f[y]).1,
                g[x].1,
            );
        assert(f[y].0 == key);
        let z = choose|a: int|
            0 <= a < f.len() && (#[trigger] f[a]).0 == key && f[a].1 == json::member(j, key)->0;
        assert(y == z);
    } else if json::member(j, key) is Some {
        let z = choose|a: int|
            0 <= a < f.len() && (#[trigger] f[a]).0 == key && f[a].1 == json::member(j, key)->0;
        let x = choose|x: int| 0 <= x < g.len() && (#[trigger] g[x]).0 == f[z].0;
        assert(g[x].0 == key);
    }
}

/// What is kept of a member, by its name or its place.
proof fn lemma_field(j: JsonView, k: JsonView, key: Seq<char>, at: int, depth: nat)
    requires
        codec::keeps(j, k),
        codec::plain(j, depth),
        0 <= at,
    ensures
        match (json::field(j, key, at), json::field(k, key, at)) {
            (None, None) => true,
            (Some(x), Some(y)) => codec::keeps(x, y) && depth > 0 && codec::plain(
                x,
                (depth - 1) as nat,
            ),
            _ => false,
        },
        manifest::text_field(j, key, at) == manifest::text_field(k, key, at),
        manifest::required_text(j, key, at) == manifest::required_text(k, key, at),
        manifest::number_field(j, key, at) == manifest::number_field(k, key, at),
{
    match (j, k) {
        (JsonView::Array(a), JsonView::Array(b)) => {
            if at < a.len() {
                assert(codec::keeps(a[at], b[at]));
                assert(codec::plain(a[at], (depth - 1) as nat));
            }
        },
        (JsonView::Object(_), _) => {
            lemma_member(j, k, key, depth);
        },
        _ => {},
    }
}

proof fn lemma_shape(j: JsonView, k: JsonView, n: int, spare: bool)
    requires
        codec::keeps(j, k),
        !(j is Float),
    ensures
        json::shaped(j, n, spare) == json::shaped(k, n, spare),
{
}

proof fn lemma_texts_kept(a: Seq<JsonView>, b: Seq<JsonView>, depth: nat)
    requires
        codec::keeps(JsonView::Array(a), JsonView::Array(b)),
        codec::plain(JsonView::Array(a), depth),
    ensures
        manifest::texts_of(a) == manifest::texts_of(b),
{
    assert forall|i: int| 0 <= i < a.len() implies ((#[trigger] a[i]) is Text <==> b[i] is Text) && (
    a[i] is Text ==> a[i] == b[i]) by {
        assert(codec::keeps(a[i], b[i]));
        assert(codec::plain(a[i], (depth - 1) as nat));
    }
    if manifest::texts_of(a) is Some {
        assert(forall|i: int| 0 <= i < b.len() ==> a[i] is Text && (#[trigger] b[i]) is Text);
        assert(Seq::new(a.len(), |i: int| a[i]->Text_0) =~= Seq::new(b.len(), |i: int| b[i]->Text_0));
    } else {
        let i = choose|i: int| 0 <= i < a.len() && !((#[trigger] a[i]) is Text);
        assert(!(b[i] is Text));
    }
}

proof fn lemma_list_field(j: JsonView, k: JsonView, key: Seq<char>, at: int, depth: nat)
    requires
        codec::keeps(j, k),
        codec::plain(j, depth),
        0 <= at,
    ensures
        manifest::list_field(j, key, at) == manifest::list_field(k, key, at),
{
    lemma_field(j, k, key, at, depth);
    match (json::field(j, key, at), json::field(k, key, at)) {
        (Some(JsonView::Array(a)), Some(JsonView::Array(b))) => {
            lemma_texts_kept(a, b, (depth - 1) as nat);
        },
        _ => {},
    }
}

proof fn lemma_tools_kept(t: JsonView, u: JsonView, depth: nat)
    requires
        codec::keeps(t, u),
        codec::plain(t, depth),
    ensures
        manifest::tools_of(t) == manifest::tools_of(u),
{
    lemma_field(t, u, "mode"@, 0, depth);
    lemma_list_field(t, u, "tools"@, 1, depth);
    lemma_shape(t, u, 1, false);
    lemma_shape(t, u, 2, false);
}

proof fn lemma_servers_kept(a: Seq<JsonView>, b: Seq<JsonView>, toml: bool, depth: nat)
    requires
        codec::keeps(JsonView::Array(a), JsonView::Array(b)),
        codec::plain(JsonView::Array(a), depth),
    ensures
        manifest::servers_of(a, toml) == manifest::servers_of(b, toml),
{
    assert forall|i: int| 0 <= i < a.len() implies manifest::server_of(#[trigger] a[i], toml)
        == manifest::server_of(b[i], toml) by {
        assert(codec::keeps(a[i], b[i]));
        assert(codec::plain(a[i], (depth - 1) as nat));
        lemma_field(a[i], b[i], "id"@, 0, (depth - 1) as nat);
        lemma_shape(a[i], b[i], 1, toml);
    }
    if manifest::servers_of(a, toml) is Some {
        assert forall|i: int| 0 <= i < b.len() implies manifest::server_of(
            #[trigger] b[i],
            toml,
        ) is Some by {
            assert(manifest::server_of(a[i], toml) is Some);
        }
        assert(manifest::servers_of(a, toml)->0 =~= manifest::servers_of(b, toml)->0);
    } else {
        let i = choose|i: int|
            0 <= i < a.len() && !(manifest::server_of(#[trigger] a[i], toml) is Some);
        assert(manifest::server_of(b[i], toml) is None);
    }
}

proof fn lemma_permissions_kept(v: JsonView, w: JsonView, toml: bool, depth: nat)
    requires
        codec::keeps(v, w),
        codec::plain(v, depth),
        v is Object,
    ensures
        w is Object,
        ({
            let f = v->Object_0;
            let g = w->Object_0;
            let named = f.len() == 1 && manifest::says_nothing(f[0].1, toml);
            &&& named <==> g.len() == 1 && manifest::says_nothing(g[0].1, toml)
            &&& named ==> f[0].0 == g[0].0
        }),
{
    let f = v->Object_0;
    let g = w->Object_0;
    if f.len() == 1 {
        let x = choose|x: int| 0 <= x < g.len() && (#[trigger] g[x]).0 == f[0].0;
        assert forall|y: int| 0 <= y < g.len() implies (#[trigger] g[y]).0 == f[0].0 && codec::keeps(
            f[0].1,
            g[y].1,
        ) by {
            let z = choose|z: int|
                0 <= z < f.len() && codec::last_of_name(f, z) && f[z].0 == g[y].0 && codec::keeps(
                    (#[trigger] f[z]).1,
                    g[y].1,
                );
            assert(z == 0);
        }
        if g.len() > 1 {
            assert(g[0].0 == g[1].0);
        }
        assert(g[0].0 == f[0].0);
        assert(codec::plain(f[0].1, (depth - 1) as nat));
        lemma_nothing_kept(f[0].1, g[0].1, toml);
    } else if f.len() > 1 {
        let x = choose|x: int| 0 <= x < g.len() && (#[trigger] g[x]).0 == f[0].0;
        let y = choose|y: int| 0 <= y < g.len() && (#[trigger] g[y]).0 == f[1].0;
        assert(f[0].0 != f[1].0);
        assert(x != y);
    } else if g.len() > 0 {
        let z = choose|z: int|
            0 <= z < f.len() && codec::last_of_name(f, z) && f[z].0 == g[0].0 && codec::keeps(
                (#[trigger] f[z]).1,
                g[0].1,
            );
        assert(0 <= z < f.len());
    }
}

proof fn lemma_nothing_kept(v: JsonView, w: JsonView, toml: bool)
    requires
        codec::keeps(v, w),
        !(v is Float),
    ensures
        manifest::says_nothing(v, toml) == manifest::says_nothing(w, toml),
{
    if let (JsonView::Object(f), JsonView::Object(g)) = (v, w) {
        if f.len() > 0 {
            let x = choose|x: int| 0 <= x < g.len() && (#[trigger] g[x]).0 == f[0].0;
            assert(g[x].0 == f[0].0);
        } else if g.len() > 0 {
            let z = choose|z: int|
                0 <= z < f.len() && codec::last_of_name(f, z) && f[z].0 == g[0].0 && codec::keeps(
                    (#[trigger] f[z]).1,
                    g[0].1,
                );
            assert(0 <= z < f.len());
        }
    }
}

/// Whether two lists hold the same budgets, each name once.
pub open spec fn same_tiers(a: Seq<(Seq<char>, u32)>, b: Seq<(Seq<char>, u32)>) -> bool {
    &&& forall|x: (Seq<char>, u32)| a.contains(x) <==> b.contains(x)
    &&& once(a)
    &&& once(b)
}

/// Whether no name stands twice.
pub open spec fn once(a: Seq<(Seq<char>, u32)>) -> bool {
    forall|i: int, k: int| 0 <= i < k < a.len() ==> (#[trigger] a[i]).0 != (#[trigger] a[k]).0
}

#[verifier::rlimit(40)]
proof fn lemma_tiers_kept(
    f: Seq<(Seq<char>, JsonView)>,
    g: Seq<(Seq<char>, JsonView)>,
    depth: nat,
)
    requires
        codec::keeps(JsonView::Object(f), JsonView::Object(g)),
        codec::plain(JsonView::Object(f), depth),
        manifest::tiers_of(f) is Some,
    ensures
        manifest::tiers_of(g) is Some,
        same_tiers(manifest::tiers_of(f)->0, manifest::tiers_of(g)->0),
{
    let a = manifest::tiers_of(f)->0;
    assert forall|x: int| 0 <= x < g.len() implies exists|y: int|
        0 <= y < f.len() && #[trigger] f[y] == #[trigger] g[x] by {
        let y = choose|y: int|
            0 <= y < f.len() && codec::last_of_name(f, y) && f[y].0 == g[x].0 && codec::keeps(
                (#[trigger] f[y]).1,
                g[x].1,
            );
        assert(manifest::small_number(f[y].1) is Some);
        assert(f[y] == g[x]);
    }
    assert forall|x: int| 0 <= x < g.len() implies manifest::small_number(
        (#[trigger] g[x]).1,
    ) is Some by {
        let y = choose|y: int| 0 <= y < f.len() && #[trigger] f[y] == g[x];
        assert(manifest::small_number(f[y].1) is Some);
    }
    let b = manifest::tiers_of(g)->0;
    assert(once(a) && once(b));
    assert forall|v: (Seq<char>, u32)| a.contains(v) <==> b.contains(v) by {
        if a.contains(v) {
            let y = choose|y: int| 0 <= y < a.len() && a[y] == v;
            let x = choose|x: int| 0 <= x < g.len() && (#[trigger] g[x]).0 == f[y].0;
            let z = choose|z: int| 0 <= z < f.len() && #[trigger] f[z] == g[x];
            assert(f[z].0 == f[y].0);
            assert(z == y);
            assert(b[x] == v);
        }
        if b.contains(v) {
            let x = choose|x: int| 0 <= x < b.len() && b[x] == v;
            let y = choose|y: int| 0 <= y < f.len() && #[trigger] f[y] == g[x];
            assert(a[y] == v);
        }
    }
}

/// Whether two policies are the same but for the order of their budgets.
pub open spec fn same_compaction(a: Option<CompactionView>, b: Option<CompactionView>) -> bool {
    match (a, b) {
        (Some(x), Some(y)) => x.token_budget == y.token_budget && x.preflight_threshold
            == y.preflight_threshold && same_tiers(x.tiers, y.tiers),
        (None, None) => true,
        _ => false,
    }
}

/// Whether two profiles are the same but for the order of budgets.
pub open spec fn same_profile(a: ProfileView, b: ProfileView) -> bool {
    &&& a == (ProfileView { compaction_policy: a.compaction_policy, ..b })
    &&& same_compaction(a.compaction_policy, b.compaction_policy)
}

proof fn lemma_compaction_kept(v: JsonView, w: JsonView, depth: nat)
    requires
        codec::keeps(v, w),
        codec::plain(v, depth),
        manifest::compaction_of(v) is Some,
    ensures
        manifest::compaction_of(w) is Some,
        same_compaction(manifest::compaction_of(v), manifest::compaction_of(w)),
{
    lemma_field(v, w, "token_budget"@, 0, depth);
    lemma_field(v, w, "preflight_threshold"@, 1, depth);
    lemma_field(v, w, "tiers"@, 2, depth);
    match (json::field(v, "tiers"@, 2), json::field(w, "tiers"@, 2)) {
        (Some(JsonView::Object(f)), Some(JsonView::Object(g))) => {
            lemma_tiers_kept(f, g, (depth - 1) as nat);
        },
        _ => {
            assert(manifest::tiers_field(v)->0 =~= Seq::empty());
            assert(manifest::tiers_field(w)->0 =~= Seq::empty());
        },
    }
}

proof fn lemma_preferences_kept(v: JsonView, w: JsonView, depth: nat)
    requires
        codec::keeps(v, w),
        codec::plain(v, depth),
    ensures
        manifest::preferences_of(v) == manifest::preferences_of(w),
{
    lemma_field(v, w, "default"@, 0, depth);
    lemma_field(v, w, "fast"@, 1, depth);
    lemma_field(v, w, "strong"@, 2, depth);
}

/// A manifest describes the same profile when the members of its objects come in another
/// order.
pub proof fn order_of_members_is_no_matter(j: JsonView, k: JsonView, toml: bool, depth: nat)
    requires
        codec::keeps(j, k),
        codec::plain(j, depth),
        manifest::manifest_of(j, toml) is Some,
    ensures
        manifest::manifest_of(k, toml) matches Some(q) && same_profile(
            manifest::manifest_of(j, toml)->0,
            q,
        ),
{
    lemma_shape(j, k, 10, toml);
    lemma_field(j, k, "name"@, 0, depth);
    lemma_field(j, k, "version"@, 1, depth);
    lemma_field(j, k, "description"@, 2, depth);
    lemma_field(j, k, "tools"@, 3, depth);
    lemma_field(j, k, "mcp_servers"@, 4, depth);
    lemma_field(j, k, "permissions"@, 5, depth);
    lemma_field(j, k, "compaction_policy"@, 6, depth);
    lemma_field(j, k, "model_preferences"@, 7, depth);
    lemma_field(j, k, "system_prompt_template"@, 8, depth);
    lemma_list_field(j, k, "agents"@, 9, depth);
    match (json::field(j, "tools"@, 3), json::field(k, "tools"@, 3)) {
        (Some(t), Some(u)) => {
            lemma_tools_kept(t, u, (depth - 1) as nat);
        },
        _ => {},
    }
    match (json::field(j, "mcp_servers"@, 4), json::field(k, "mcp_servers"@, 4)) {
        (Some(JsonView::Array(a)), Some(JsonView::Array(b))) => {
            lemma_servers_kept(a, b, toml, (depth - 1) as nat);
        },
        _ => {},
    }
    match (json::field(j, "permissions"@, 5), json::field(k, "permissions"@, 5)) {
        (Some(v), Some(w)) => {
            if v is Object {
                lemma_permissions_kept(v, w, toml, (depth - 1) as nat);
            }
        },
        _ => {},
    }
    match (
        json::field(j, "compaction_policy"@, 6),
        json::field(k, "compaction_policy"@, 6),
    ) {
        (Some(v), Some(w)) => {
            lemma_shape(v, w, 3, toml);
            if json::shaped(v, 3, toml) {
                lemma_compaction_kept(v, w, (depth - 1) as nat);
            }
        },
        _ => {},
    }
    match (
        json::field(j, "model_preferences"@, 7),
        json::field(k, "model_preferences"@, 7),
    ) {
        (Some(v), Some(w)) => {
            lemma_shape(v, w, 3, toml);
            if json::shaped(v, 3, toml) {
                lemma_preferences_kept(v, w, (depth - 1) as nat);
            }
        },
        _ => {},
    }
}

/// Whether no member is named `key`.
spec fn lacks(fields: Seq<(Seq<char>, JsonView)>, key: Seq<char>) -> bool {
    forall|i: int| 0 <= i < fields.len() ==> (#[trigger] fields[i]).0 != key
}

proof fn lemma_with_some(
    fields: Seq<(Seq<char>, JsonView)>,
    key: Seq<char>,
    value: Option<JsonView>,
    depth: nat,
)
    requires
        depth > 0,
        codec::plain(JsonView::Object(fields), depth),
        lacks(fields, key),
        value matches Some(v) ==> codec::plain(v, (depth - 1) as nat),
    ensures
        codec::plain(JsonView::Object(manifest::with_some(fields, key, value)), depth),
        forall|k: Seq<char>|
            lacks(fields, k) && k != key ==> #[trigger] lacks(
                manifest::with_some(fields, key, value),
                k,
            ),
{
}

proof fn lemma_texts_plain(v: Seq<Seq<char>>, depth: nat)
    requires
        depth > 0,
    ensures
        codec::plain(json::texts_view(v), depth),
{
    let a = json::texts_view(v)->Array_0;
    assert forall|i: int| 0 <= i < a.len() implies codec::plain(
        #[trigger] a[i],
        (depth - 1) as nat,
    ) by {}
}

proof fn lemma_tools_plain(t: ToolsView, depth: nat)
    requires
        depth > 1,
    ensures
        codec::plain(manifest::tools_json(t), depth),
{
    reveal_strlit("mode");
    reveal_strlit("tools");
    assert("mode"@.len() == 4 && "tools"@.len() == 5);
    reveal_with_fuel(codec::plain, 2);
    match t {
        ToolsView::Default => {},
        ToolsView::AllowList { tools } => {
            lemma_texts_plain(tools, (depth - 1) as nat);
        },
        ToolsView::DenyList { tools } => {
            lemma_texts_plain(tools, (depth - 1) as nat);
        },
    }
}

proof fn lemma_servers_plain(ids: Seq<Seq<char>>, depth: nat)
    requires
        depth > 1,
    ensures
        manifest::some_servers(ids) matches Some(v) ==> codec::plain(v, depth),
{
    reveal_with_fuel(codec::plain, 2);
    if ids.len() > 0 {
        let a = manifest::some_servers(ids)->0->Array_0;
        assert forall|i: int| 0 <= i < a.len() implies codec::plain(
            #[trigger] a[i],
            (depth - 1) as nat,
        ) by {
            let f = seq![("id"@, JsonView::Text(ids[i]))];
            assert(a[i] == JsonView::Object(f));
            assert(codec::distinct(f));
        }
    }
}

proof fn lemma_compaction_plain(c: CompactionView, depth: nat)
    requires
        depth > 1,
        once(c.tiers),
    ensures
        codec::plain(manifest::compaction_json(c), depth),
{
    reveal_strlit("token_budget");
    reveal_strlit("preflight_threshold");
    reveal_strlit("tiers");
    assert("token_budget"@.len() == 12 && "preflight_threshold"@.len() == 19 && "tiers"@.len() == 5);
    let none = Seq::<(Seq<char>, JsonView)>::empty();
    let a = manifest::with_some(none, "token_budget"@, manifest::some_number(c.token_budget));
    let b = manifest::with_some(
        a,
        "preflight_threshold"@,
        manifest::some_number(c.preflight_threshold),
    );
    lemma_with_some(none, "token_budget"@, manifest::some_number(c.token_budget), depth);
    assert(lacks(none, "preflight_threshold"@) && lacks(none, "tiers"@));
    lemma_with_some(
        a,
        "preflight_threshold"@,
        manifest::some_number(c.preflight_threshold),
        depth,
    );
    reveal_with_fuel(codec::plain, 2);
    if c.tiers.len() > 0 {
        let t = manifest::some_tiers(c.tiers)->0->Object_0;
        assert forall|i: int, k: int| 0 <= i < k < t.len() implies (#[trigger] t[i]).0 != (
        #[trigger] t[k]).0 by {
            assert(c.tiers[i].0 != c.tiers[k].0);
        }
        assert(codec::plain(JsonView::Object(t), (depth - 1) as nat));
    }
    lemma_with_some(b, "tiers"@, manifest::some_tiers(c.tiers), depth);
}

proof fn lemma_preferences_plain(p: PreferencesView, depth: nat)
    requires
        depth > 0,
    ensures
        codec::plain(manifest::preferences_json(p), depth),
{
    reveal_strlit("default");
    reveal_strlit("fast");
    reveal_strlit("strong");
    assert("default"@.len() == 7 && "fast"@.len() == 4 && "strong"@.len() == 6);
    let none = Seq::<(Seq<char>, JsonView)>::empty();
    let a = manifest::with_some(none, "default"@, manifest::some_text(p.default));
    let b = manifest::with_some(a, "fast"@, manifest::some_text(p.fast));
    lemma_with_some(none, "default"@, manifest::some_text(p.default), depth);
    assert(lacks(none, "fast"@) && lacks(none, "strong"@));
    lemma_with_some(a, "fast"@, manifest::some_text(p.fast), depth);
    lemma_with_some(b, "strong"@, manifest::some_text(p.strong), depth);
}

/// Whether the budgets of a profile name each tier once.
pub open spec fn tiers_once(p: ProfileView) -> bool {
    p.compaction_policy matches Some(c) ==> once(c.tiers)
}

proof fn lemma_written_is_plain(p: ProfileView, depth: nat)
    requires
        depth > 2,
        tiers_once(p),
    ensures
        codec::plain(manifest::written(p), depth),
{
    manifest::lemma_keys_differ();
    let below = (depth - 1) as nat;
    let a = seq![
        ("name"@, JsonView::Text(p.name)),
        ("version"@, JsonView::Int(p.version as int)),
    ];
    assert(codec::distinct(a));
    assert(codec::plain(JsonView::Object(a), depth)) by {
        reveal_with_fuel(codec::plain, 2);
    }
    assert(lacks(a, "description"@) && lacks(a, "tools"@) && lacks(a, "mcp_servers"@));
    assert(lacks(a, "permissions"@) && lacks(a, "compaction_policy"@));
    assert(lacks(a, "model_preferences"@) && lacks(a, "system_prompt_template"@));
    assert(lacks(a, "agents"@));
    let b = manifest::with_some(a, "description"@, manifest::some_text(p.description));
    lemma_with_some(a, "description"@, manifest::some_text(p.description), depth);
    lemma_tools_plain(p.tools, below);
    let c = manifest::with_some(b, "tools"@, Some(manifest::tools_json(p.tools)));
    lemma_with_some(b, "tools"@, Some(manifest::tools_json(p.tools)), depth);
    lemma_servers_plain(p.mcp_servers, below);
    let d = manifest::with_some(c, "mcp_servers"@, manifest::some_servers(p.mcp_servers));
    lemma_with_some(c, "mcp_servers"@, manifest::some_servers(p.mcp_servers), depth);
    let permissions = Some(manifest::permissions_json(p.permissions));
    let e = manifest::with_some(d, "permissions"@, permissions);
    lemma_with_some(d, "permissions"@, permissions, depth);
    let compaction = match p.compaction_policy {
        Some(c) => Some(manifest::compaction_json(c)),
        None => None,
    };
    if let Some(c) = p.compaction_policy {
        lemma_compaction_plain(c, below);
    }
    let f = manifest::with_some(e, "compaction_policy"@, compaction);
    lemma_with_some(e, "compaction_policy"@, compaction, depth);
    let preferences = match p.model_preferences {
        Some(m) => Some(manifest::preferences_json(m)),
        None => None,
    };
    if let Some(m) = p.model_preferences {
        lemma_preferences_plain(m, below);
    }
    let g = manifest::with_some(f, "model_preferences"@, preferences);
    lemma_with_some(f, "model_preferences"@, preferences, depth);
    let template = manifest::some_text(p.system_prompt_template);
    let h = manifest::with_some(g, "system_prompt_template"@, template);
    lemma_with_some(g, "system_prompt_template"@, template, depth);
    lemma_texts_plain(p.agents, below);
    lemma_with_some(h, "agents"@, manifest::some_texts(p.agents), depth);
}

impl ProfileDefinition {
    /// The profile as a JSON text. Where the profile is valid and names each tier once, reading
    /// the text gives the profile back; only the order of the budgets is left open.
    pub fn to_json_str(&self) -> (r: String)
        ensures
            r@ == codec::json_text(manifest::written(self@)),
            profile::invalid(self@) is None && tiers_once(self@) ==> (manifest::json_manifest(
                codec::parsed(r@),
            ) matches Ok(q) && same_profile(self@, q)),
    {
        let j = self.to_json();
        let r = render_json(&j);
        proof {
            if profile::invalid(self@) is None && tiers_once(self@) {
                lemma_written_is_plain(self@, 127);
                manifest::written_profiles_are_read_back(self@, false);
                order_of_members_is_no_matter(j@, codec::kept(j@), false, 127);
            }
        }
        r
    }
}

} // verus!
