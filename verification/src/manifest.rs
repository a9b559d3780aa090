//! Profiles as JSON or TOML: reading a manifest, and writing one.

use vstd::prelude::*;

use crate::codec;
use crate::codec::{parse_json, parse_toml};
use crate::json;
use crate::json::{is_shaped, pick, text_json, texts_json, Fields, Json, JsonView};
use crate::profile;
use crate::profile::{
    is_toml, CompactionView, ErrorView, McpServerRef, ModelPreferences, PermissionMode, PreferencesView,
    ProfileCompactionPolicy, ProfileDefinition, ProfileError, ProfileTools, ProfileView, ToolsView,
};
use crate::text;
use crate::text::{own, same};

verus! {

/// A text that may be missing; nothing where the member is of another shape.
pub open spec fn text_field(j: JsonView, key: Seq<char>, at: int) -> Option<Option<Seq<char>>> {
    match json::field(j, key, at) {
        None => Some(None),
        Some(JsonView::Null) => Some(None),
        Some(JsonView::Text(s)) => Some(Some(s)),
        _ => None,
    }
}

/// The number that a value is, where `u32` holds it.
pub open spec fn small_number(v: JsonView) -> Option<u32> {
    match v {
        JsonView::Int(n) => if 0 <= n <= u32::MAX {
            Some(n as u32)
        } else {
            None
        },
        _ => None,
    }
}

/// A number that may be missing; nothing where the member is of another shape.
pub open spec fn number_field(j: JsonView, key: Seq<char>, at: int) -> Option<Option<u32>> {
    match json::field(j, key, at) {
        None => Some(None),
        Some(JsonView::Null) => Some(None),
        Some(v) => match small_number(v) {
            Some(n) => Some(Some(n)),
            None => None,
        },
    }
}

/// The texts that the values of a list are, where all are texts.
pub open spec fn texts_of(a: Seq<JsonView>) -> Option<Seq<Seq<char>>> {
    if forall|i: int| 0 <= i < a.len() ==> (#[trigger] a[i]) is Text {
        Some(Seq::new(a.len(), |i: int| a[i]->Text_0))
    } else {
        None
    }
}

/// A list of texts, empty where it is missing; nothing where the member is of another shape.
pub open spec fn list_field(j: JsonView, key: Seq<char>, at: int) -> Option<Seq<Seq<char>>> {
    match json::field(j, key, at) {
        None => Some(Seq::empty()),
        Some(JsonView::Array(a)) => texts_of(a),
        _ => None,
    }
}

/// The text that has to stand in a member.
pub open spec fn required_text(j: JsonView, key: Seq<char>, at: int) -> Option<Seq<char>> {
    match json::field(j, key, at) {
        Some(JsonView::Text(s)) => Some(s),
        _ => None,
    }
}

/// The tool filter that a value describes: its mode, and the tools where the mode has any.
pub open spec fn tools_of(t: JsonView) -> Option<ToolsView> {
    match required_text(t, "mode"@, 0) {
        None => None,
        Some(mode) => if mode == "default"@ && json::shaped(t, 1, false) {
            Some(ToolsView::Default)
        } else if mode == "allow_list"@ && json::shaped(t, 2, false) {
            match list_field(t, "tools"@, 1) {
                Some(tools) => Some(ToolsView::AllowList { tools }),
                None => None,
            }
        } else if mode == "deny_list"@ && json::shaped(t, 2, false) {
            match list_field(t, "tools"@, 1) {
                Some(tools) => Some(ToolsView::DenyList { tools }),
                None => None,
            }
        } else {
            None
        },
    }
}

/// The tool filter of a manifest.
pub open spec fn tools_field(j: JsonView) -> Option<ToolsView> {
    match json::field(j, "tools"@, 3) {
        None => Some(ToolsView::Default),
        Some(t) => tools_of(t),
    }
}

/// The id of the server that a value describes.
pub open spec fn server_of(v: JsonView, toml: bool) -> Option<Seq<char>> {
    if json::shaped(v, 1, toml) {
        required_text(v, "id"@, 0)
    } else {
        None
    }
}

/// The ids of the servers that a list describes, where all have one.
pub open spec fn servers_of(a: Seq<JsonView>, toml: bool) -> Option<Seq<Seq<char>>> {
    if forall|i: int| 0 <= i < a.len() ==> server_of(#[trigger] a[i], toml) is Some {
        Some(Seq::new(a.len(), |i: int| server_of(a[i], toml)->0))
    } else {
        None
    }
}

/// The servers of a manifest.
pub open spec fn servers_field(j: JsonView, toml: bool) -> Option<Seq<Seq<char>>> {
    match json::field(j, "mcp_servers"@, 4) {
        None => Some(Seq::empty()),
        Some(JsonView::Array(a)) => servers_of(a, toml),
        _ => None,
    }
}

/// The permissions of a name.
pub open spec fn permissions_of(s: Seq<char>) -> Option<PermissionMode> {
    if s == "default"@ {
        Some(PermissionMode::Default)
    } else if s == "restricted"@ {
        Some(PermissionMode::Restricted)
    } else {
        None
    }
}

/// Whether a value says no more than the name before it: `null`, and in TOML, which has none, an
/// empty table or list.
pub open spec fn says_nothing(v: JsonView, toml: bool) -> bool {
    match v {
        JsonView::Null => !toml,
        JsonView::Array(a) => toml && a.len() == 0,
        JsonView::Object(f) => toml && f.len() == 0,
        _ => false,
    }
}

/// The permissions of a manifest: their name, by itself or as the only member of an object.
pub open spec fn permissions_field(j: JsonView, toml: bool) -> Option<PermissionMode> {
    match json::field(j, "permissions"@, 5) {
        None => Some(PermissionMode::Default),
        Some(JsonView::Text(s)) => permissions_of(s),
        Some(JsonView::Object(f)) => if f.len() == 1 && says_nothing(f[0].1, toml) {
            permissions_of(f[0].0)
        } else {
            None
        },
        _ => None,
    }
}

/// The budgets that the members of an object are, where all are numbers.
pub open spec fn tiers_of(fields: Seq<(Seq<char>, JsonView)>) -> Option<Seq<(Seq<char>, u32)>> {
    if forall|i: int| 0 <= i < fields.len() ==> small_number((#[trigger] fields[i]).1) is Some {
        Some(Seq::new(fields.len(), |i: int| (fields[i].0, small_number(fields[i].1)->0)))
    } else {
        None
    }
}

/// The budgets of a compaction policy.
pub open spec fn tiers_field(j: JsonView) -> Option<Seq<(Seq<char>, u32)>> {
    match json::field(j, "tiers"@, 2) {
        None => Some(Seq::empty()),
        Some(JsonView::Object(fields)) => tiers_of(fields),
        _ => None,
    }
}

/// The compaction policy that an object describes.
pub open spec fn compaction_of(j: JsonView) -> Option<CompactionView> {
    match (
        number_field(j, "token_budget"@, 0),
        number_field(j, "preflight_threshold"@, 1),
        tiers_field(j),
    ) {
        (Some(token_budget), Some(preflight_threshold), Some(tiers)) => Some(
            CompactionView { token_budget, preflight_threshold, tiers },
        ),
        _ => None,
    }
}

/// The compaction policy of a manifest.
pub open spec fn compaction_field(j: JsonView, toml: bool) -> Option<Option<CompactionView>> {
    match json::field(j, "compaction_policy"@, 6) {
        None => Some(None),
        Some(JsonView::Null) => Some(None),
        Some(v) => if json::shaped(v, 3, toml) {
            match compaction_of(v) {
                Some(c) => Some(Some(c)),
                None => None,
            }
        } else {
            None
        },
    }
}

/// The model preferences that an object describes.
pub open spec fn preferences_of(j: JsonView) -> Option<PreferencesView> {
    match (text_field(j, "default"@, 0), text_field(j, "fast"@, 1), text_field(j, "strong"@, 2)) {
        (Some(default), Some(fast), Some(strong)) => Some(
            PreferencesView { default, fast, strong },
        ),
        _ => None,
    }
}

/// The model preferences of a manifest.
pub open spec fn preferences_field(j: JsonView, toml: bool) -> Option<Option<PreferencesView>> {
    match json::field(j, "model_preferences"@, 7) {
        None => Some(None),
        Some(JsonView::Null) => Some(None),
        Some(v) => if json::shaped(v, 3, toml) {
            match preferences_of(v) {
                Some(c) => Some(Some(c)),
                None => None,
            }
        } else {
            None
        },
    }
}

/// The version of a manifest.
pub open spec fn version_field(j: JsonView) -> Option<u32> {
    match json::field(j, "version"@, 1) {
        Some(v) => small_number(v),
        None => None,
    }
}

/// The profile that a manifest describes: its members by name, or in their order. A name and a
/// version have to be there. Members of another name are passed over.
pub open spec fn manifest_of(j: JsonView, toml: bool) -> Option<ProfileView> {
    if !json::shaped(j, 10, toml) {
        None
    } else {
        match (
            required_text(j, "name"@, 0),
            version_field(j),
            text_field(j, "description"@, 2),
            tools_field(j),
            servers_field(j, toml),
            permissions_field(j, toml),
            compaction_field(j, toml),
            preferences_field(j, toml),
            text_field(j, "system_prompt_template"@, 8),
            list_field(j, "agents"@, 9),
        ) {
            (
                Some(name),
                Some(version),
                Some(description),
                Some(tools),
                Some(mcp_servers),
                Some(permissions),
                Some(compaction_policy),
                Some(model_preferences),
                Some(system_prompt_template),
                Some(agents),
            ) => Some(
                ProfileView {
                    name,
                    version,
                    description,
                    tools,
                    mcp_servers,
                    permissions,
                    compaction_policy,
                    model_preferences,
                    system_prompt_template,
                    agents,
                },
            ),
            _ => None,
        }
    }
}

/// The profile that a manifest describes, where it is valid.
pub open spec fn accepted(j: JsonView, toml: bool) -> Result<ProfileView, ErrorView> {
    match manifest_of(j, toml) {
        None => Err(ErrorView::Malformed),
        Some(p) => match profile::invalid(p) {
            Some(e) => Err(e),
            None => Ok(p),
        },
    }
}

/// The profile that a text describes, given what was read of it. Where nothing could be read, or
/// what was read has not the shape of a profile, the error is the one of the text's format.
pub open spec fn described(read: Option<JsonView>, toml: bool, unread: ErrorView) -> Result<
    ProfileView,
    ErrorView,
> {
    match read {
        Some(j) => if manifest_of(j, toml) is None {
            Err(unread)
        } else {
            accepted(j, toml)
        },
        None => Err(unread),
    }
}

/// The profile that a manifest in JSON describes, given what was read.
pub open spec fn json_manifest(read: Option<JsonView>) -> Result<ProfileView, ErrorView> {
    described(read, false, ErrorView::NotJson)
}

/// The profile that a manifest in TOML describes, given what was read.
pub open spec fn toml_manifest(read: Option<JsonView>) -> Result<ProfileView, ErrorView> {
    described(read, true, ErrorView::NotToml)
}

/// The profile of a file, given the one that was read from it, if any.
pub open spec fn of_file(path: Seq<char>, read: Option<ProfileView>, windows: bool) -> Result<
    ProfileView,
    ErrorView,
> {
    profile::in_file(
        path,
        match read {
            Some(p) => match profile::invalid(p) {
                Some(e) => Err(e),
                None => Ok(p),
            },
            None => if profile::toml_named(path, windows) {
                Err(ErrorView::NotToml)
            } else {
                Err(ErrorView::NotJson)
            },
        },
    )
}

/// A manifest that is accepted has the version that is understood and a name, whatever else it
/// holds.
pub proof fn accepted_manifests_are_valid(j: JsonView, toml: bool)
    ensures
        accepted(j, toml) matches Ok(p) ==> p.version == profile::PROFILE_SCHEMA_VERSION
            && text::trim_view(p.name).len() > 0,
{
}

/// Whether a member of a manifest has a meaning.
pub open spec fn is_known(key: Seq<char>) -> bool {
    ||| key == "name"@
    ||| key == "version"@
    ||| key == "description"@
    ||| key == "tools"@
    ||| key == "mcp_servers"@
    ||| key == "permissions"@
    ||| key == "compaction_policy"@
    ||| key == "model_preferences"@
    ||| key == "system_prompt_template"@
    ||| key == "agents"@
}

/// A member that is not known changes nothing: a manifest with more members is read as one
/// without them.
pub proof fn unknown_members_are_passed_over(
    fields: Seq<(Seq<char>, JsonView)>,
    key: Seq<char>,
    value: JsonView,
    toml: bool,
)
    requires
        !is_known(key),
    ensures
        accepted(JsonView::Object(fields.push((key, value))), toml) == accepted(
            JsonView::Object(fields),
            toml,
        ),
{
    let f = (key, value);
    json::lemma_member_push(fields, f, "name"@, 0);
    json::lemma_member_push(fields, f, "version"@, 0);
    json::lemma_member_push(fields, f, "description"@, 0);
    json::lemma_member_push(fields, f, "tools"@, 0);
    json::lemma_member_push(fields, f, "mcp_servers"@, 0);
    json::lemma_member_push(fields, f, "permissions"@, 0);
    json::lemma_member_push(fields, f, "compaction_policy"@, 0);
    json::lemma_member_push(fields, f, "model_preferences"@, 0);
    json::lemma_member_push(fields, f, "system_prompt_template"@, 0);
    json::lemma_member_push(fields, f, "agents"@, 0);
}

/// An optional text as it is read.
pub open spec fn opt_opt(o: Option<Option<String>>) -> Option<Option<Seq<char>>> {
    match o {
        Some(t) => Some(text::opt(t)),
        None => None,
    }
}

fn read_required(j: &Json, key: &str, at: usize) -> (r: Option<String>)
    ensures
        text::opt(r) == required_text(j@, key@, at as int),
{
    match pick(j, key, at) {
        Some(Json::Text(s)) => Some(own(s)),
        _ => None,
    }
}

fn read_text(j: &Json, key: &str, at: usize) -> (r: Option<Option<String>>)
    ensures
        opt_opt(r) == text_field(j@, key@, at as int),
{
    match pick(j, key, at) {
        None => Some(None),
        Some(Json::Null) => Some(None),
        Some(Json::Text(s)) => Some(Some(own(s))),
        _ => None,
    }
}

fn read_small(v: &Json) -> (r: Option<u32>)
    ensures
        r == small_number(v@),
{
    match v.as_unsigned() {
        Some(n) => if n <= u32::MAX as u64 {
            Some(n as u32)
        } else {
            None
        },
        None => None,
    }
}

fn read_number(j: &Json, key: &str, at: usize) -> (r: Option<Option<u32>>)
    ensures
        r == number_field(j@, key@, at as int),
{
    match pick(j, key, at) {
        None => Some(None),
        Some(Json::Null) => Some(None),
        Some(v) => match read_small(v) {
            Some(n) => Some(Some(n)),
            None => None,
        },
    }
}

/// A list of texts as it is read.
pub open spec fn opt_list(o: Option<Vec<String>>) -> Option<Seq<Seq<char>>> {
    match o {
        Some(v) => Some(text::views(v@)),
        None => None,
    }
}

fn read_texts(a: &Vec<Json>) -> (r: Option<Vec<String>>)
    ensures
        opt_list(r) == texts_of(text::views(a@)),
{
    let ghost s = text::views(a@);
    let mut out: Vec<String> = Vec::new();
    let mut i: usize = 0;
    while i < a.len()
        invariant
            i <= a.len(),
            out.len() == i,
            s == text::views(a@),
            forall|k: int|
                0 <= k < i ==> (#[trigger] s[k]) is Text && out@[k]@ == s[k]->Text_0,
        decreases a.len() - i,
    {
        assert(s[i as int] == a@[i as int]@);
        match &a[i] {
            Json::Text(t) => {
                out.push(own(t));
            },
            _ => {
                assert(!(s[i as int] is Text));
                return None;
            },
        }
        i += 1;
    }
    assert(text::views(out@) =~= Seq::new(s.len(), |i: int| s[i]->Text_0));
    Some(out)
}

fn read_list(j: &Json, key: &str, at: usize) -> (r: Option<Vec<String>>)
    ensures
        opt_list(r) == list_field(j@, key@, at as int),
{
    broadcast use json::lemma_array_view;

    match pick(j, key, at) {
        None => {
            let v: Vec<String> = Vec::new();
            proof {
                text::lemma_views_empty(v@);
            }
            Some(v)
        },
        Some(Json::Array(a)) => read_texts(a),
        _ => None,
    }
}

fn read_tools(j: &Json) -> (r: Option<ProfileTools>)
    ensures
        profile::opt_view(r) == tools_field(j@),
{
    let t = match pick(j, "tools", 3) {
        None => {
            return Some(ProfileTools::Default);
        },
        Some(t) => t,
    };
    match read_required(t, "mode", 0) {
        None => None,
        Some(mode) => {
            if same(&mode, "default") && is_shaped(t, 1, false) {
                Some(ProfileTools::Default)
            } else if same(&mode, "allow_list") && is_shaped(t, 2, false) {
                match read_list(t, "tools", 1) {
                    Some(tools) => Some(ProfileTools::AllowList { tools }),
                    None => None,
                }
            } else if same(&mode, "deny_list") && is_shaped(t, 2, false) {
                match read_list(t, "tools", 1) {
                    Some(tools) => Some(ProfileTools::DenyList { tools }),
                    None => None,
                }
            } else {
                None
            }
        },
    }
}

/// A list of servers as it is read.
pub open spec fn opt_servers(o: Option<Vec<McpServerRef>>) -> Option<Seq<Seq<char>>> {
    match o {
        Some(v) => Some(text::views(v@)),
        None => None,
    }
}

fn read_server(v: &Json, toml: bool) -> (r: Option<String>)
    ensures
        text::opt(r) == server_of(v@, toml),
{
    if is_shaped(v, 1, toml) {
        read_required(v, "id", 0)
    } else {
        None
    }
}

fn read_server_list(a: &Vec<Json>, toml: bool) -> (r: Option<Vec<McpServerRef>>)
    ensures
        opt_servers(r) == servers_of(text::views(a@), toml),
{
    let ghost s = text::views(a@);
    let mut out: Vec<McpServerRef> = Vec::new();
    let mut i: usize = 0;
    while i < a.len()
        invariant
            i <= a.len(),
            out.len() == i,
            s == text::views(a@),
            forall|k: int|
                0 <= k < i ==> server_of(#[trigger] s[k], toml) == Some(out@[k]@),
        decreases a.len() - i,
    {
        assert(s[i as int] == a@[i as int]@);
        match read_server(&a[i], toml) {
            Some(id) => {
                out.push(McpServerRef { id });
            },
            None => {
                assert(server_of(s[i as int], toml) is None);
                return None;
            },
        }
        i += 1;
    }
    assert(text::views(out@) =~= Seq::new(
        s.len(),
        |i: int| server_of(s[i], toml)->0,
    ));
    Some(out)
}

fn read_servers(j: &Json, toml: bool) -> (r: Option<Vec<McpServerRef>>)
    ensures
        opt_servers(r) == servers_field(j@, toml),
{
    broadcast use json::lemma_array_view;

    match pick(j, "mcp_servers", 4) {
        None => {
            let v: Vec<McpServerRef> = Vec::new();
            proof {
                text::lemma_views_empty(v@);
            }
            Some(v)
        },
        Some(Json::Array(a)) => read_server_list(a, toml),
        _ => None,
    }
}

fn read_mode(s: &str) -> (r: Option<PermissionMode>)
    ensures
        r == permissions_of(s@),
{
    if same(s, "default") {
        Some(PermissionMode::Default)
    } else if same(s, "restricted") {
        Some(PermissionMode::Restricted)
    } else {
        None
    }
}

fn is_nothing(v: &Json, toml: bool) -> (r: bool)
    ensures
        r == says_nothing(v@, toml),
{
    broadcast use {json::lemma_array_view, json::lemma_object_view};

    match v {
        Json::Null => !toml,
        Json::Array(a) => toml && a.len() == 0,
        Json::Object(f) => toml && f.len() == 0,
        _ => false,
    }
}

fn read_permissions(j: &Json, toml: bool) -> (r: Option<PermissionMode>)
    ensures
        r == permissions_field(j@, toml),
{
    broadcast use json::lemma_object_view;

    match pick(j, "permissions", 5) {
        None => Some(PermissionMode::Default),
        Some(Json::Text(s)) => read_mode(s),
        Some(Json::Object(f)) => {
            if f.len() == 1 && is_nothing(&f[0].1, toml) {
                read_mode(&f[0].0)
            } else {
                None
            }
        },
        _ => None,
    }
}

/// Budgets as they are read.
pub open spec fn opt_tiers(o: Option<Vec<(String, u32)>>) -> Option<Seq<(Seq<char>, u32)>> {
    match o {
        Some(v) => Some(profile::tiers_view(v@)),
        None => None,
    }
}

fn read_tier_list(fields: &Vec<(String, Json)>) -> (r: Option<Vec<(String, u32)>>)
    ensures
        opt_tiers(r) == tiers_of(json::fields_view(fields@)),
{
    let ghost s = json::fields_view(fields@);
    let mut out: Vec<(String, u32)> = Vec::new();
    let mut i: usize = 0;
    while i < fields.len()
        invariant
            i <= fields.len(),
            out.len() == i,
            s == json::fields_view(fields@),
            forall|k: int|
                0 <= k < i ==> small_number((#[trigger] s[k]).1) == Some(out@[k].1)
                    && out@[k].0@ == s[k].0,
        decreases fields.len() - i,
    {
        let f = &fields[i];
        assert(s[i as int] == (f.0@, f.1@));
        match read_small(&f.1) {
            Some(n) => {
                out.push((own(&f.0), n));
            },
            None => {
                assert(small_number(s[i as int].1) is None);
                return None;
            },
        }
        i += 1;
    }
    assert(profile::tiers_view(out@) =~= Seq::new(
        s.len(),
        |i: int| (s[i].0, small_number(s[i].1)->0),
    ));
    Some(out)
}

fn read_tiers(j: &Json) -> (r: Option<Vec<(String, u32)>>)
    ensures
        opt_tiers(r) == tiers_field(j@),
{
    broadcast use json::lemma_object_view;

    match pick(j, "tiers", 2) {
        None => {
            let v: Vec<(String, u32)> = Vec::new();
            assert(profile::tiers_view(v@) =~= Seq::<(Seq<char>, u32)>::empty());
            Some(v)
        },
        Some(Json::Object(fields)) => read_tier_list(fields),
        _ => None,
    }
}

/// A compaction policy as it is read.
pub open spec fn opt_compaction(o: Option<Option<ProfileCompactionPolicy>>) -> Option<
    Option<CompactionView>,
> {
    match o {
        Some(c) => Some(profile::opt_view(c)),
        None => None,
    }
}

fn read_compaction(j: &Json, toml: bool) -> (r: Option<Option<ProfileCompactionPolicy>>)
    ensures
        opt_compaction(r) == compaction_field(j@, toml),
{
    let v = match pick(j, "compaction_policy", 6) {
        None => {
            return Some(None);
        },
        Some(Json::Null) => {
            return Some(None);
        },
        Some(v) => v,
    };
    if !is_shaped(v, 3, toml) {
        return None;
    }
    match (
        read_number(v, "token_budget", 0),
        read_number(v, "preflight_threshold", 1),
        read_tiers(v),
    ) {
        (Some(token_budget), Some(preflight_threshold), Some(tiers)) => Some(
            Some(ProfileCompactionPolicy { token_budget, preflight_threshold, tiers }),
        ),
        _ => None,
    }
}

/// Model preferences as they are read.
pub open spec fn opt_preferences(o: Option<Option<ModelPreferences>>) -> Option<
    Option<PreferencesView>,
> {
    match o {
        Some(c) => Some(profile::opt_view(c)),
        None => None,
    }
}

fn read_preferences(j: &Json, toml: bool) -> (r: Option<Option<ModelPreferences>>)
    ensures
        opt_preferences(r) == preferences_field(j@, toml),
{
    let v = match pick(j, "model_preferences", 7) {
        None => {
            return Some(None);
        },
        Some(Json::Null) => {
            return Some(None);
        },
        Some(v) => v,
    };
    if !is_shaped(v, 3, toml) {
        return None;
    }
    match (read_text(v, "default", 0), read_text(v, "fast", 1), read_text(v, "strong", 2)) {
        (Some(default), Some(fast), Some(strong)) => Some(
            Some(ModelPreferences { default, fast, strong }),
        ),
        _ => None,
    }
}

fn read_manifest(j: &Json, toml: bool) -> (r: Option<ProfileDefinition>)
    ensures
        profile::opt_view(r) == manifest_of(j@, toml),
{
    if !is_shaped(j, 10, toml) {
        return None;
    }
    let name = match read_required(j, "name", 0) {
        Some(n) => n,
        None => {
            return None;
        },
    };
    let version: u32 = match pick(j, "version", 1) {
        Some(v) => match read_small(v) {
            Some(n) => n,
            None => {
                return None;
            },
        },
        None => {
            return None;
        },
    };
    match (
        read_text(j, "description", 2),
        read_tools(j),
        read_servers(j, toml),
        read_permissions(j, toml),
        read_compaction(j, toml),
        read_preferences(j, toml),
        read_text(j, "system_prompt_template", 8),
        read_list(j, "agents", 9),
    ) {
        (
            Some(description),
            Some(tools),
            Some(mcp_servers),
            Some(permissions),
            Some(compaction_policy),
            Some(model_preferences),
            Some(system_prompt_template),
            Some(agents),
        ) => Some(
            ProfileDefinition {
                name,
                version,
                description,
                tools,
                mcp_servers,
                permissions,
                compaction_policy,
                model_preferences,
                system_prompt_template,
                agents,
            },
        ),
        _ => None,
    }
}

fn accept(j: &Json, toml: bool) -> (r: Result<ProfileDefinition, ProfileError>)
    ensures
        profile::result_view(r) == accepted(j@, toml),
{
    match read_manifest(j, toml) {
        None => Err(ProfileError::Malformed),
        Some(p) => match p.validate() {
            Ok(_) => Ok(p),
            Err(e) => Err(e),
        },
    }
}

impl ProfileDefinition {
    /// The profile that a manifest describes, where it is valid.
    pub fn from_json(j: &Json) -> (r: Result<Self, ProfileError>)
        ensures
            profile::result_view(r) == accepted(j@, false),
    {
        accept(j, false)
    }

    /// The profile that a manifest in JSON describes, where it is valid. It is read from the
    /// parsed value, in which the last of two members of one name stands.
    pub fn from_json_str(s: &str) -> (r: Result<Self, ProfileError>)
        ensures
            profile::result_view(r) == json_manifest(codec::parsed(s@)),
    {
        match parse_json(s) {
            Some(j) => match accept(&j, false) {
                Err(ProfileError::Malformed) => Err(ProfileError::NotJson),
                r => r,
            },
            None => Err(ProfileError::NotJson),
        }
    }

    /// The profile that a manifest in TOML describes, where it is valid.
    pub fn from_toml_str(s: &str) -> (r: Result<Self, ProfileError>)
        ensures
            profile::result_view(r) == toml_manifest(codec::toml_parsed(s@)),
    {
        match parse_toml(s) {
            Some(j) => match accept(&j, true) {
                Err(ProfileError::Malformed) => Err(ProfileError::NotToml),
                r => r,
            },
            None => Err(ProfileError::NotToml),
        }
    }

    /// The profile of a file, where it is valid, given the one that was read from it, if any; the
    /// file's name says how it was written.
    pub fn from_read(path: &str, read: Option<ProfileDefinition>, windows: bool) -> (r: Result<
        Self,
        ProfileError,
    >)
        ensures
            profile::result_view(r) == of_file(path@, profile::opt_view(read), windows),
    {
        let failure = match read {
            Some(p) => match p.validate() {
                Ok(_) => {
                    return Ok(p);
                },
                Err(e) => e,
            },
            None => if is_toml(path, windows) {
                ProfileError::NotToml
            } else {
                ProfileError::NotJson
            },
        };
        Err(ProfileError::InFile { path: own(path), cause: failure.message() })
    }

    /// The profile that a file describes, where it is valid; the file's name says how it is
    /// written.
    pub fn from_file(path: &str, contents: &str, windows: bool) -> (r: Result<Self, ProfileError>)
        ensures
            profile::result_view(r) == profile::in_file(
                path@,
                if profile::toml_named(path@, windows) {
                    toml_manifest(codec::toml_parsed(contents@))
                } else {
                    json_manifest(codec::parsed(contents@))
                },
            ),
    {
        let toml = is_toml(path, windows);
        let value = if toml {
            parse_toml(contents)
        } else {
            parse_json(contents)
        };
        let read = match &value {
            Some(j) => read_manifest(j, toml),
            None => None,
        };
        ProfileDefinition::from_read(path, read, windows)
    }
}

/// Members with one more, where there is a value for it.
pub open spec fn with_some(
    fields: Seq<(Seq<char>, JsonView)>,
    key: Seq<char>,
    value: Option<JsonView>,
) -> Seq<(Seq<char>, JsonView)> {
    match value {
        Some(v) => fields.push((key, v)),
        None => fields,
    }
}

proof fn lemma_with_some(
    fields: Seq<(Seq<char>, JsonView)>,
    key: Seq<char>,
    value: Option<JsonView>,
)
    ensures
        forall|k: Seq<char>| #[trigger]
            json::member_from(with_some(fields, key, value), k, 0) == (match json::member_from(
                fields,
                k,
                0,
            ) {
                Some(x) => Some(x),
                None => if k == key {
                    value
                } else {
                    None
                },
            }),
{
    if let Some(v) = value {
        assert forall|k: Seq<char>| #[trigger]
            json::member_from(with_some(fields, key, value), k, 0) == (match json::member_from(
                fields,
                k,
                0,
            ) {
                Some(x) => Some(x),
                None => if k == key {
                    value
                } else {
                    None
                },
            }) by {
            json::lemma_member_push(fields, (key, v), k, 0);
        }
    }
}

/// A text that is left out where it is missing.
pub open spec fn some_text(o: Option<Seq<char>>) -> Option<JsonView> {
    match o {
        Some(s) => Some(JsonView::Text(s)),
        None => None,
    }
}

/// A number that is left out where it is missing.
pub open spec fn some_number(o: Option<u32>) -> Option<JsonView> {
    match o {
        Some(n) => Some(JsonView::Int(n as int)),
        None => None,
    }
}

/// A list of texts that is left out where it is empty.
pub open spec fn some_texts(v: Seq<Seq<char>>) -> Option<JsonView> {
    if v.len() == 0 {
        None
    } else {
        Some(json::texts_view(v))
    }
}

/// A tool filter as it is written.
pub open spec fn tools_json(t: ToolsView) -> JsonView {
    match t {
        ToolsView::Default => JsonView::Object(seq![("mode"@, JsonView::Text("default"@))]),
        ToolsView::AllowList { tools } => JsonView::Object(
            seq![("mode"@, JsonView::Text("allow_list"@)), ("tools"@, json::texts_view(tools))],
        ),
        ToolsView::DenyList { tools } => JsonView::Object(
            seq![("mode"@, JsonView::Text("deny_list"@)), ("tools"@, json::texts_view(tools))],
        ),
    }
}

/// Servers as they are written; they are left out where there are none.
pub open spec fn some_servers(ids: Seq<Seq<char>>) -> Option<JsonView> {
    if ids.len() == 0 {
        None
    } else {
        Some(
            JsonView::Array(
                ids.map_values(|id: Seq<char>| JsonView::Object(seq![("id"@, JsonView::Text(id))])),
            ),
        )
    }
}

/// Permissions as they are written.
pub open spec fn permissions_json(p: PermissionMode) -> JsonView {
    match p {
        PermissionMode::Default => JsonView::Text("default"@),
        PermissionMode::Restricted => JsonView::Text("restricted"@),
    }
}

/// Budgets as they are written; they are left out where there are none.
pub open spec fn some_tiers(t: Seq<(Seq<char>, u32)>) -> Option<JsonView> {
    if t.len() == 0 {
        None
    } else {
        Some(JsonView::Object(t.map_values(|e: (Seq<char>, u32)| (e.0, JsonView::Int(e.1 as int)))))
    }
}

/// A compaction policy as it is written.
pub open spec fn compaction_json(c: CompactionView) -> JsonView {
    let a = with_some(Seq::empty(), "token_budget"@, some_number(c.token_budget));
    let b = with_some(a, "preflight_threshold"@, some_number(c.preflight_threshold));
    JsonView::Object(with_some(b, "tiers"@, some_tiers(c.tiers)))
}

/// Model preferences as they are written.
pub open spec fn preferences_json(p: PreferencesView) -> JsonView {
    let a = with_some(Seq::empty(), "default"@, some_text(p.default));
    let b = with_some(a, "fast"@, some_text(p.fast));
    JsonView::Object(with_some(b, "strong"@, some_text(p.strong)))
}

/// The members of a manifest up to its servers.
pub open spec fn first_members(p: ProfileView) -> Seq<(Seq<char>, JsonView)> {
    let a = seq![
        ("name"@, JsonView::Text(p.name)),
        ("version"@, JsonView::Int(p.version as int)),
    ];
    let b = with_some(a, "description"@, some_text(p.description));
    let c = with_some(b, "tools"@, Some(tools_json(p.tools)));
    with_some(c, "mcp_servers"@, some_servers(p.mcp_servers))
}

/// A profile as it is written: what is missing or empty is left out.
pub open spec fn written(p: ProfileView) -> JsonView {
    let d = first_members(p);
    let e = with_some(d, "permissions"@, Some(permissions_json(p.permissions)));
    let f = with_some(
        e,
        "compaction_policy"@,
        match p.compaction_policy {
            Some(c) => Some(compaction_json(c)),
            None => None,
        },
    );
    let g = with_some(
        f,
        "model_preferences"@,
        match p.model_preferences {
            Some(m) => Some(preferences_json(m)),
            None => None,
        },
    );
    let h = with_some(g, "system_prompt_template"@, some_text(p.system_prompt_template));
    JsonView::Object(with_some(h, "agents"@, some_texts(p.agents)))
}

proof fn lemma_texts(v: Seq<Seq<char>>)
    ensures
        json::texts_view(v) matches JsonView::Array(a) && texts_of(a) == Some(v),
{
    let a = json::texts_view(v)->Array_0;
    assert(forall|i: int| 0 <= i < a.len() ==> (#[trigger] a[i]) is Text);
    assert(Seq::new(a.len(), |i: int| a[i]->Text_0) =~= v);
}

proof fn lemma_tools(t: ToolsView)
    ensures
        tools_of(tools_json(t)) == Some(t),
{
    reveal_strlit("mode");
    reveal_strlit("tools");
    reveal_strlit("default");
    reveal_strlit("allow_list");
    reveal_strlit("deny_list");
    assert("mode"@.len() == 4 && "tools"@.len() == 5);
    assert("default"@.len() == 7 && "allow_list"@.len() == 10 && "deny_list"@.len() == 9);
    reveal_with_fuel(json::member_from, 3);
    match t {
        ToolsView::Default => {},
        ToolsView::AllowList { tools } => {
            lemma_texts(tools);
        },
        ToolsView::DenyList { tools } => {
            lemma_texts(tools);
        },
    }
}

proof fn lemma_servers(ids: Seq<Seq<char>>, toml: bool)
    requires
        ids.len() > 0,
    ensures
        some_servers(ids) matches Some(JsonView::Array(a)) && servers_of(a, toml) == Some(ids),
{
    let a = some_servers(ids)->0->Array_0;
    reveal_with_fuel(json::member_from, 2);
    assert forall|i: int| 0 <= i < a.len() implies server_of(#[trigger] a[i], toml) == Some(
        ids[i],
    ) by {
        assert(a[i] == JsonView::Object(seq![("id"@, JsonView::Text(ids[i]))]));
    }
    assert(Seq::new(a.len(), |i: int| server_of(a[i], toml)->0) =~= ids);
}

proof fn lemma_tiers(t: Seq<(Seq<char>, u32)>)
    requires
        t.len() > 0,
    ensures
        some_tiers(t) matches Some(JsonView::Object(f)) && tiers_of(f) == Some(t),
{
    let f = some_tiers(t)->0->Object_0;
    assert forall|i: int| 0 <= i < f.len() implies small_number((#[trigger] f[i]).1) == Some(
        t[i].1,
    ) by {
        assert(f[i] == (t[i].0, JsonView::Int(t[i].1 as int)));
    }
    assert(Seq::new(f.len(), |i: int| (f[i].0, small_number(f[i].1)->0)) =~= t);
}

proof fn lemma_compaction(c: CompactionView)
    ensures
        compaction_of(compaction_json(c)) == Some(c),
{
    reveal_strlit("token_budget");
    reveal_strlit("preflight_threshold");
    reveal_strlit("tiers");
    assert("token_budget"@.len() == 12 && "preflight_threshold"@.len() == 19 && "tiers"@.len()
        == 5);
    let a = with_some(Seq::empty(), "token_budget"@, some_number(c.token_budget));
    let b = with_some(a, "preflight_threshold"@, some_number(c.preflight_threshold));
    lemma_with_some(Seq::empty(), "token_budget"@, some_number(c.token_budget));
    lemma_with_some(a, "preflight_threshold"@, some_number(c.preflight_threshold));
    lemma_with_some(b, "tiers"@, some_tiers(c.tiers));
    if c.tiers.len() > 0 {
        lemma_tiers(c.tiers);
    } else {
        assert(c.tiers =~= Seq::empty());
    }
}

proof fn lemma_preferences(p: PreferencesView)
    ensures
        preferences_of(preferences_json(p)) == Some(p),
{
    reveal_strlit("default");
    reveal_strlit("fast");
    reveal_strlit("strong");
    assert("default"@.len() == 7 && "fast"@.len() == 4 && "strong"@.len() == 6);
    let a = with_some(Seq::empty(), "default"@, some_text(p.default));
    let b = with_some(a, "fast"@, some_text(p.fast));
    lemma_with_some(Seq::empty(), "default"@, some_text(p.default));
    lemma_with_some(a, "fast"@, some_text(p.fast));
    lemma_with_some(b, "strong"@, some_text(p.strong));
}

pub proof fn lemma_keys_differ()
    ensures
        "name"@.len() == 4,
        "version"@.len() == 7,
        "description"@.len() == 11 && "description"@[0] == 'd',
        "tools"@.len() == 5,
        "mcp_servers"@.len() == 11 && "mcp_servers"@[0] == 'm',
        "permissions"@.len() == 11 && "permissions"@[0] == 'p',
        "compaction_policy"@.len() == 17 && "compaction_policy"@[0] == 'c',
        "model_preferences"@.len() == 17 && "model_preferences"@[0] == 'm',
        "system_prompt_template"@.len() == 22,
        "agents"@.len() == 6,
{
    reveal_strlit("name");
    reveal_strlit("version");
    reveal_strlit("description");
    reveal_strlit("tools");
    reveal_strlit("mcp_servers");
    reveal_strlit("permissions");
    reveal_strlit("compaction_policy");
    reveal_strlit("model_preferences");
    reveal_strlit("system_prompt_template");
    reveal_strlit("agents");
}

/// Reading a profile that was written gives it back.
pub proof fn written_profiles_are_read_back(p: ProfileView, toml: bool)
    ensures
        manifest_of(written(p), toml) == Some(p),
        profile::invalid(p) is None ==> accepted(written(p), toml) == Ok::<
            ProfileView,
            ErrorView,
        >(p),
{
    lemma_keys_differ();
    let a = seq![
        ("name"@, JsonView::Text(p.name)),
        ("version"@, JsonView::Int(p.version as int)),
    ];
    let compaction = match p.compaction_policy {
        Some(c) => Some(compaction_json(c)),
        None => None,
    };
    let preferences = match p.model_preferences {
        Some(m) => Some(preferences_json(m)),
        None => None,
    };
    let b = with_some(a, "description"@, some_text(p.description));
    let c = with_some(b, "tools"@, Some(tools_json(p.tools)));
    let d = first_members(p);
    let e = with_some(d, "permissions"@, Some(permissions_json(p.permissions)));
    let f = with_some(e, "compaction_policy"@, compaction);
    let g = with_some(f, "model_preferences"@, preferences);
    let h = with_some(g, "system_prompt_template"@, some_text(p.system_prompt_template));
    assert forall|k: Seq<char>| #[trigger]
        json::member_from(a, k, 0) == (if k == "name"@ {
            Some(JsonView::Text(p.name))
        } else if k == "version"@ {
            Some(JsonView::Int(p.version as int))
        } else {
            None
        }) by {
        reveal_with_fuel(json::member_from, 4);
    }
    lemma_with_some(a, "description"@, some_text(p.description));
    lemma_with_some(b, "tools"@, Some(tools_json(p.tools)));
    lemma_with_some(c, "mcp_servers"@, some_servers(p.mcp_servers));
    lemma_with_some(d, "permissions"@, Some(permissions_json(p.permissions)));
    lemma_with_some(e, "compaction_policy"@, compaction);
    lemma_with_some(f, "model_preferences"@, preferences);
    lemma_with_some(g, "system_prompt_template"@, some_text(p.system_prompt_template));
    lemma_with_some(h, "agents"@, some_texts(p.agents));
    let j = written(p);
    lemma_tools(p.tools);
    assert(tools_field(j) == Some(p.tools));
    if p.mcp_servers.len() > 0 {
        lemma_servers(p.mcp_servers, toml);
    } else {
        assert(p.mcp_servers =~= Seq::empty());
    }
    assert(servers_field(j, toml) == Some(p.mcp_servers));
    assert(permissions_field(j, toml) == Some(p.permissions)) by {
        reveal_strlit("default");
        reveal_strlit("restricted");
        assert("default"@.len() == 7 && "restricted"@.len() == 10);
    }
    if let Some(c) = p.compaction_policy {
        lemma_compaction(c);
    }
    assert(compaction_field(j, toml) == Some(p.compaction_policy));
    if let Some(m) = p.model_preferences {
        lemma_preferences(m);
    }
    assert(preferences_field(j, toml) == Some(p.model_preferences));
    if p.agents.len() > 0 {
        lemma_texts(p.agents);
    } else {
        assert(p.agents =~= Seq::empty());
    }
    assert(list_field(j, "agents"@, 9) == Some(p.agents));
    assert(text_field(j, "description"@, 2) == Some(p.description));
    assert(text_field(j, "system_prompt_template"@, 8) == Some(p.system_prompt_template));
}

fn put_some(out: Fields, key: &str, value: Option<Json>) -> (r: Fields)
    ensures
        r@ == with_some(out@, key@, profile::opt_view(value)),
{
    match value {
        Some(v) => out.with(key, v),
        None => out,
    }
}

fn show_text(o: &Option<String>) -> (r: Option<Json>)
    ensures
        profile::opt_view(r) == some_text(text::opt(*o)),
{
    match o {
        Some(s) => Some(text_json(s)),
        None => None,
    }
}

fn show_number(o: Option<u32>) -> (r: Option<Json>)
    ensures
        profile::opt_view(r) == some_number(o),
{
    match o {
        Some(n) => Some(Json::Unsigned(n as u64)),
        None => None,
    }
}

fn show_tools(t: &ProfileTools) -> (r: Json)
    ensures
        r@ == tools_json(t@),
{
    match t {
        ProfileTools::Default => {
            let f = Fields::new().with("mode", text_json("default"));
            assert(f@ =~= seq![("mode"@, JsonView::Text("default"@))]);
            f.object()
        },
        ProfileTools::AllowList { tools } => {
            let f = Fields::new().with("mode", text_json("allow_list")).with(
                "tools",
                texts_json(tools),
            );
            assert(f@ =~= tools_json(t@)->Object_0);
            f.object()
        },
        ProfileTools::DenyList { tools } => {
            let f = Fields::new().with("mode", text_json("deny_list")).with(
                "tools",
                texts_json(tools),
            );
            assert(f@ =~= tools_json(t@)->Object_0);
            f.object()
        },
    }
}

fn show_servers(servers: &Vec<McpServerRef>) -> (r: Option<Json>)
    ensures
        profile::opt_view(r) == some_servers(text::views(servers@)),
{
    broadcast use json::lemma_array_view;

    let ghost ids = text::views(servers@);
    if servers.len() == 0 {
        return None;
    }
    let mut out: Vec<Json> = Vec::new();
    let mut i: usize = 0;
    while i < servers.len()
        invariant
            i <= servers.len(),
            out.len() == i,
            ids == text::views(servers@),
            forall|k: int|
                0 <= k < i ==> (#[trigger] out@[k])@ == JsonView::Object(
                    seq![("id"@, JsonView::Text(ids[k]))],
                ),
        decreases servers.len() - i,
    {
        let f = Fields::new().with("id", text_json(&servers[i].id));
        assert(f@ =~= seq![("id"@, JsonView::Text(ids[i as int]))]);
        out.push(f.object());
        i += 1;
    }
    assert(text::views(out@) =~= some_servers(ids)->0->Array_0);
    Some(Json::Array(out))
}

fn show_tiers(tiers: &Vec<(String, u32)>) -> (r: Option<Json>)
    ensures
        profile::opt_view(r) == some_tiers(profile::tiers_view(tiers@)),
{
    let ghost all = profile::tiers_view(tiers@);
    if tiers.len() == 0 {
        return None;
    }
    let mut out = Fields::new();
    let mut i: usize = 0;
    let ghost want = some_tiers(all)->0->Object_0;
    assert(out@ =~= want.take(0));
    while i < tiers.len()
        invariant
            i <= tiers.len(),
            all == profile::tiers_view(tiers@),
            tiers.len() > 0,
            want == some_tiers(all)->0->Object_0,
            out@ == want.take(i as int),
        decreases tiers.len() - i,
    {
        let e = &tiers[i];
        out = out.with(&e.0, Json::Unsigned(e.1 as u64));
        i += 1;
        assert(out@ =~= want.take(i as int));
    }
    assert(want.take(i as int) =~= want);
    Some(out.object())
}

fn show_compaction(c: &ProfileCompactionPolicy) -> (r: Json)
    ensures
        r@ == compaction_json(c@),
{
    let a = put_some(Fields::new(), "token_budget", show_number(c.token_budget));
    let b = put_some(a, "preflight_threshold", show_number(c.preflight_threshold));
    put_some(b, "tiers", show_tiers(&c.tiers)).object()
}

fn show_preferences(p: &ModelPreferences) -> (r: Json)
    ensures
        r@ == preferences_json(p@),
{
    let a = put_some(Fields::new(), "default", show_text(&p.default));
    let b = put_some(a, "fast", show_text(&p.fast));
    put_some(b, "strong", show_text(&p.strong)).object()
}

impl ProfileDefinition {
    /// The profile as a manifest; what is missing or empty is left out.
    pub fn to_json(&self) -> (r: Json)
        ensures
            r@ == written(self@),
    {
        let a = Fields::new().with("name", text_json(&self.name)).with(
            "version",
            Json::Unsigned(self.version as u64),
        );
        assert(a@ =~= seq![
            ("name"@, JsonView::Text(self@.name)),
            ("version"@, JsonView::Int(self@.version as int)),
        ]);
        let b = put_some(a, "description", show_text(&self.description));
        let c = put_some(b, "tools", Some(show_tools(&self.tools)));
        let d = put_some(c, "mcp_servers", show_servers(&self.mcp_servers));
        let permissions = match self.permissions {
            PermissionMode::Default => text_json("default"),
            PermissionMode::Restricted => text_json("restricted"),
        };
        let e = put_some(d, "permissions", Some(permissions));
        let compaction = match &self.compaction_policy {
            Some(c) => Some(show_compaction(c)),
            None => None,
        };
        let f = put_some(e, "compaction_policy", compaction);
        let preferences = match &self.model_preferences {
            Some(m) => Some(show_preferences(m)),
            None => None,
        };
        let g = put_some(f, "model_preferences", preferences);
        let h = put_some(g, "system_prompt_template", show_text(&self.system_prompt_template));
        let agents = if self.agents.len() == 0 {
            None
        } else {
            Some(texts_json(&self.agents))
        };
        assert(text::views(self.agents@).len() == self.agents@.len());
        put_some(h, "agents", agents).object()
    }
}

} // verus!
