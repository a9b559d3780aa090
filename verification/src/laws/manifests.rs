//! What a manifest says of its profile, member by member, and which manifests are refused.

use vstd::prelude::*;

use crate::json;
use crate::json::JsonView;
use crate::manifest;
use crate::paths;
use crate::profile;
use crate::profile::{ErrorView, PermissionMode, ProfileView, ToolsView};
use crate::text;

verus! {

/// A manifest that is read gives its profile the name, the version, the description, the template and
/// the agents that it names; what it does not name is missing or empty.
pub proof fn manifests_name_their_profile(j: JsonView, toml: bool)
    requires
        j is Object,
        manifest::manifest_of(j, toml) is Some,
    ensures
        ({
            let p = manifest::manifest_of(j, toml)->0;
            &&& json::member(j, "name"@) == Some(JsonView::Text(p.name))
            &&& json::member(j, "version"@) == Some(JsonView::Int(p.version as int))
            &&& p.description matches Some(d) ==> json::member(j, "description"@) == Some(
                JsonView::Text(d),
            )
            &&& p.description is None ==> json::member(j, "description"@) is None || json::member(
                j,
                "description"@,
            ) == Some(JsonView::Null)
            &&& p.system_prompt_template matches Some(d) ==> json::member(
                j,
                "system_prompt_template"@,
            ) == Some(JsonView::Text(d))
            &&& json::member(j, "system_prompt_template"@) is None ==> p.system_prompt_template
                is None
            &&& json::member(j, "agents"@) is None ==> p.agents.len() == 0
            &&& json::member(j, "agents"@) is Some ==> json::member(j, "agents"@) == Some(
                json::texts_view(p.agents),
            )
        }),
{
    let p = manifest::manifest_of(j, toml)->0;
    if let Some(JsonView::Array(a)) = json::member(j, "agents"@) {
        assert(json::texts_view(p.agents)->Array_0 =~= a);
    }
}

/// The tools of a manifest: everything where it says nothing or says so; else the listed tools alone,
/// or all but the listed ones. Another mode is refused.
pub proof fn manifests_list_their_tools(
    j: JsonView,
    t: JsonView,
    mode: Seq<char>,
    list: Seq<Seq<char>>,
    toml: bool,
)
    requires
        j is Object,
        t is Object,
        json::member(j, "tools"@) == Some(t),
        json::member(t, "mode"@) == Some(JsonView::Text(mode)),
        json::member(t, "tools"@) == Some(json::texts_view(list)),
    ensures
        manifest::manifest_of(j, toml) matches Some(p) ==> {
            &&& mode == "allow_list"@ ==> p.tools == (ToolsView::AllowList { tools: list })
            &&& mode == "deny_list"@ ==> p.tools == (ToolsView::DenyList { tools: list })
            &&& mode == "default"@ ==> p.tools == ToolsView::Default
        },
        mode != "allow_list"@ && mode != "deny_list"@ && mode != "default"@
            ==> manifest::manifest_of(j, toml) is None,
{
    reveal_strlit("allow_list");
    reveal_strlit("deny_list");
    reveal_strlit("default");
    assert("allow_list"@.len() == 10 && "deny_list"@.len() == 9 && "default"@.len() == 7);
    let a = json::texts_view(list)->Array_0;
    assert forall|i: int| 0 <= i < a.len() implies (#[trigger] a[i]) is Text by {}
    assert(manifest::texts_of(a) == Some(list)) by {
        assert(Seq::new(a.len(), |i: int| a[i]->Text_0) =~= list);
    }
}

/// A manifest without tools, servers, permissions, compaction or preferences has the defaults.
pub proof fn missing_members_have_defaults(j: JsonView, toml: bool)
    requires
        j is Object,
        manifest::manifest_of(j, toml) is Some,
    ensures
        ({
            let p = manifest::manifest_of(j, toml)->0;
            &&& json::member(j, "tools"@) is None ==> p.tools == ToolsView::Default
            &&& json::member(j, "mcp_servers"@) is None ==> p.mcp_servers.len() == 0
            &&& json::member(j, "permissions"@) is None ==> p.permissions
                == PermissionMode::Default
            &&& json::member(j, "compaction_policy"@) is None ==> p.compaction_policy is None
            &&& json::member(j, "model_preferences"@) is None ==> p.model_preferences is None
        }),
{
}

/// The permissions of a manifest are those that it names; a name that is not known is refused.
pub proof fn manifests_name_their_permissions(j: JsonView, s: Seq<char>, toml: bool)
    requires
        j is Object,
        json::member(j, "permissions"@) == Some(JsonView::Text(s)),
    ensures
        manifest::manifest_of(j, toml) matches Some(p) ==> {
            &&& s == "restricted"@ <==> p.permissions == PermissionMode::Restricted
            &&& s == "default"@ <==> p.permissions == PermissionMode::Default
        },
        s != "restricted"@ && s != "default"@ ==> manifest::manifest_of(j, toml) is None,
{
    reveal_strlit("restricted");
    reveal_strlit("default");
    assert("restricted"@.len() == 10 && "default"@.len() == 7);
}

/// The servers of a manifest are those of its list, by their ids and in order.
pub proof fn manifests_list_their_servers(j: JsonView, a: Seq<JsonView>, i: int, toml: bool)
    requires
        j is Object,
        json::member(j, "mcp_servers"@) == Some(JsonView::Array(a)),
        0 <= i < a.len(),
        a[i] is Object,
    ensures
        manifest::manifest_of(j, toml) matches Some(p) ==> p.mcp_servers.len() == a.len()
            && json::member(a[i], "id"@) == Some(JsonView::Text(p.mcp_servers[i])),
        json::text_member(a[i], "id"@) is None ==> manifest::manifest_of(j, toml) is None,
{
    if manifest::servers_of(a, toml) is Some {
        assert(manifest::server_of(a[i], toml) is Some);
    }
}

/// The compaction policy and the model preferences of a manifest are those that it gives, number by
/// number and name by name.
pub proof fn manifests_give_their_policies(j: JsonView, c: JsonView, m: JsonView, toml: bool)
    requires
        j is Object,
        c is Object,
        m is Object,
        json::member(j, "compaction_policy"@) == Some(c),
        json::member(j, "model_preferences"@) == Some(m),
        manifest::manifest_of(j, toml) is Some,
    ensures
        ({
            let p = manifest::manifest_of(j, toml)->0;
            &&& p.compaction_policy is Some
            &&& p.model_preferences is Some
            &&& (p.compaction_policy->0).token_budget matches Some(n) ==> json::member(
                c,
                "token_budget"@,
            ) == Some(JsonView::Int(n as int))
            &&& json::member(c, "token_budget"@) is None ==> (p.compaction_policy->0).token_budget
                is None
            &&& (p.compaction_policy->0).preflight_threshold matches Some(n) ==> json::member(
                c,
                "preflight_threshold"@,
            ) == Some(JsonView::Int(n as int))
            &&& json::member(c, "preflight_threshold"@) is None ==> (
            p.compaction_policy->0).preflight_threshold is None
            &&& json::member(c, "tiers"@) is None ==> (p.compaction_policy->0).tiers.len() == 0
            &&& json::member(c, "tiers"@) is Some ==> json::member(c, "tiers"@) == Some(
                JsonView::Object(
                    (p.compaction_policy->0).tiers.map_values(
                        |e: (Seq<char>, u32)| (e.0, JsonView::Int(e.1 as int)),
                    ),
                ),
            )
            &&& (p.model_preferences->0).default == json::text_member(m, "default"@)
            &&& (p.model_preferences->0).fast == json::text_member(m, "fast"@)
            &&& (p.model_preferences->0).strong == json::text_member(m, "strong"@)
        }),
{
    let p = manifest::manifest_of(j, toml)->0;
    if let Some(JsonView::Object(f)) = json::member(c, "tiers"@) {
        let t = (p.compaction_policy->0).tiers;
        let back = t.map_values(|e: (Seq<char>, u32)| (e.0, JsonView::Int(e.1 as int)));
        assert forall|i: int| 0 <= i < f.len() implies back[i] == #[trigger] f[i] by {
            assert(manifest::small_number(f[i].1) is Some);
        }
        assert(back =~= f);
    }
}

/// A manifest is refused where it has no name or no version, where a member is of the wrong kind, and
/// where it is valid but for its version or its name.
pub proof fn bad_manifests_are_refused(j: JsonView, toml: bool)
    requires
        j is Object,
    ensures
        json::text_member(j, "name"@) is None ==> manifest::accepted(j, toml) is Err,
        json::member(j, "version"@) is None ==> manifest::accepted(j, toml) is Err,
        json::member(j, "version"@) matches Some(v) && v != JsonView::Int(1) ==> manifest::accepted(
            j,
            toml,
        ) is Err,
        json::text_member(j, "name"@) matches Some(n) && text::trim_view(n).len() == 0
            ==> manifest::accepted(j, toml) is Err,
        json::member(j, "agents"@) matches Some(a) && !(a is Array) ==> manifest::accepted(j, toml)
            is Err,
        json::member(j, "description"@) matches Some(d) && !(d is Text) && !(d is Null)
            ==> manifest::accepted(j, toml) is Err,
        manifest::accepted(j, toml) matches Ok(p) ==> manifest::manifest_of(j, toml) == Some(p),
        manifest::manifest_of(j, toml) matches Some(p) ==> (p.version == 1 && text::trim_view(
            p.name,
        ).len() > 0 ==> manifest::accepted(j, toml) == Ok::<ProfileView, ErrorView>(p)),
{
}

/// A text that cannot be read, or is no profile, is refused as its own format; one that can is taken
/// as the manifest that it is.
pub proof fn texts_are_read_as_their_format(j: JsonView)
    ensures
        manifest::json_manifest(None) == Err::<ProfileView, ErrorView>(ErrorView::NotJson),
        manifest::toml_manifest(None) == Err::<ProfileView, ErrorView>(ErrorView::NotToml),
        manifest::manifest_of(j, false) is None ==> manifest::json_manifest(Some(j)) == Err::<
            ProfileView,
            ErrorView,
        >(ErrorView::NotJson),
        manifest::manifest_of(j, true) is None ==> manifest::toml_manifest(Some(j)) == Err::<
            ProfileView,
            ErrorView,
        >(ErrorView::NotToml),
        manifest::manifest_of(j, false) is Some ==> manifest::json_manifest(Some(j))
            == manifest::accepted(j, false),
        manifest::manifest_of(j, true) is Some ==> manifest::toml_manifest(Some(j))
            == manifest::accepted(j, true),
{
}

/// A file is read as TOML where the last name of its path ends in the extension of TOML behind a name,
/// in any case; an error in it names the file.
pub proof fn files_are_read_by_their_extension(
    path: Seq<char>,
    name: Seq<char>,
    p: ProfileView,
    windows: bool,
)
    requires
        name.len() > 0,
        paths::components(path, windows).len() > 0,
    ensures
        paths::components(path, windows).last() == name + ".toml"@ ==> profile::toml_named(
            path,
            windows,
        ),
        paths::components(path, windows).last() == name + ".TOML"@ ==> profile::toml_named(
            path,
            windows,
        ),
        paths::components(path, windows).last() == name + ".json"@ ==> !profile::toml_named(
            path,
            windows,
        ),
        profile::toml_named(path, windows) ==> (manifest::of_file(path, None, windows) matches Err(
            ErrorView::InFile { path: at, cause },
        ) && at == path && cause == profile::error_text(ErrorView::NotToml)),
        !profile::toml_named(path, windows) ==> (manifest::of_file(path, None, windows) matches Err(
            ErrorView::InFile { path: at, cause },
        ) && at == path && cause == profile::error_text(ErrorView::NotJson)),
        p.version == 1 && text::trim_view(p.name).len() > 0 ==> manifest::of_file(
            path,
            Some(p),
            windows,
        ) == Ok::<ProfileView, ErrorView>(p),
        p.version != 1 ==> (manifest::of_file(path, Some(p), windows) matches Err(
            ErrorView::InFile { path: at, .. },
        ) && at == path),
{
    reveal_strlit(".toml");
    reveal_strlit(".TOML");
    reveal_strlit(".json");
}

} // verus!
