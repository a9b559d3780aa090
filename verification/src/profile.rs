//! Profiles: manifests that say how an agent starts, and which tools it gets.

use vstd::prelude::*;

use crate::paths;
use crate::paths::{components_of, is_absolute, join_paths};
use crate::json;
use crate::policy;
use crate::policy::any_entry_matches;
use crate::text;
use crate::text::{
    cat, cat3, cat5, chars_of, debug_list, dec_string, list_has, own, same, starts_with,
    strip_prefix, trim,
};

verus! {

/// The version that a manifest must have.
pub const PROFILE_SCHEMA_VERSION: u32 = 1;

/// Where a profile came from.
#[derive(Debug, Clone, Copy, PartialEq, Eq, Structural)]
pub enum ProfileSource {
    /// A file that was named.
    ExplicitPath,
    /// The user's own profiles.
    UserDir,
    /// The profiles that come with the library.
    Builtin,
}

/// How a profile narrows the tools.
#[derive(Debug)]
pub enum ProfileTools {
    /// Not at all.
    Default,
    /// To those that are listed; an empty list does not narrow them.
    AllowList { tools: Vec<String> },
    /// By those that are listed.
    DenyList { tools: Vec<String> },
}

/// What [`ProfileTools`] stand for.
#[verifier::ext_equal]
pub enum ToolsView {
    Default,
    AllowList { tools: Seq<Seq<char>> },
    DenyList { tools: Seq<Seq<char>> },
}

impl View for ProfileTools {
    type V = ToolsView;

    open spec fn view(&self) -> ToolsView {
        match self {
            ProfileTools::Default => ToolsView::Default,
            ProfileTools::AllowList { tools } => ToolsView::AllowList {
                tools: text::views(tools@),
            },
            ProfileTools::DenyList { tools } => ToolsView::DenyList { tools: text::views(tools@) },
        }
    }
}

impl Default for ProfileTools {
    fn default() -> (r: Self)
        ensures
            r@ == ToolsView::Default,
    {
        ProfileTools::Default
    }
}

/// Whether a tool survives the filter of a profile.
pub open spec fn allowed(tools: ToolsView, tool: Seq<char>) -> bool {
    match tools {
        ToolsView::Default => true,
        ToolsView::AllowList { tools } => tools.len() == 0 || policy::any_matched(tools, tool),
        ToolsView::DenyList { tools } => !policy::any_matched(tools, tool),
    }
}

impl ProfileTools {
    /// Whether a tool survives the filter. Tools that only spawn are not spared here: whether
    /// one is registered at all is decided by this.
    pub fn allows(&self, tool_name: &str) -> (r: bool)
        ensures
            r == allowed(self@, tool_name@),
    {
        match self {
            ProfileTools::Default => true,
            ProfileTools::AllowList { tools } => {
                assert(text::views(tools@).len() == tools@.len());
                tools.len() == 0 || any_entry_matches(tools, tool_name)
            },
            ProfileTools::DenyList { tools } => !any_entry_matches(tools, tool_name),
        }
    }
}

/// A tool that is registered.
#[derive(Debug)]
pub struct RegisteredTool {
    pub name: String,
    /// Whether it only ever runs in the background.
    pub spawn_only: bool,
}

/// The tools that are registered.
#[derive(Debug)]
pub struct ToolRegistry {
    pub tools: Vec<RegisteredTool>,
}

/// Whether a registered tool survives the filter of a profile: one that only spawns always
/// does.
pub open spec fn survives(tools: ToolsView, t: RegisteredTool) -> bool {
    t.spawn_only || allowed(tools, t.name@)
}

/// The registered tools, among the first `n`, that survive.
pub open spec fn kept_tools(tools: ToolsView, all: Seq<RegisteredTool>, n: int) -> Seq<
    RegisteredTool,
>
    decreases n,
{
    if n <= 0 {
        Seq::empty()
    } else if survives(tools, all[n - 1]) {
        kept_tools(tools, all, n - 1).push(all[n - 1])
    } else {
        kept_tools(tools, all, n - 1)
    }
}

impl ToolRegistry {
    /// No tools.
    pub fn new() -> (r: Self)
        ensures
            r.tools@ == Seq::<RegisteredTool>::empty(),
    {
        ToolRegistry { tools: Vec::new() }
    }

    /// Adds a tool.
    pub fn register(&mut self, name: &str, spawn_only: bool)
        ensures
            final(self).tools@.len() == old(self).tools@.len() + 1,
            final(self).tools@.drop_last() == old(self).tools@,
            final(self).tools@.last().name@ == name@,
            final(self).tools@.last().spawn_only == spawn_only,
    {
        self.tools.push(RegisteredTool { name: own(name), spawn_only });
        assert(self.tools@.drop_last() =~= old(self).tools@);
    }

    /// Drops the tools that do not survive the filter of a profile; the others keep their
    /// order.
    pub fn filter_by_profile(&mut self, tools: &ProfileTools)
        ensures
            final(self).tools@ == kept_tools(
                tools@,
                old(self).tools@,
                old(self).tools@.len() as int,
            ),
    {
        let ghost all = self.tools@;
        let mut rest: Vec<RegisteredTool> = Vec::new();
        std::mem::swap(&mut rest, &mut self.tools);
        assert(rest@ =~= all.take(rest@.len() as int));
        let mut back: Vec<RegisteredTool> = Vec::new();
        while rest.len() > 0
            invariant
                rest@ == all.take(rest@.len() as int),
                rest@.len() <= all.len(),
                kept_tools(tools@, all, rest@.len() as int) + back@.reverse() == kept_tools(
                    tools@,
                    all,
                    all.len() as int,
                ),
            decreases rest.len(),
        {
            let ghost n = rest@.len() as int;
            let ghost later = back@.reverse();
            match rest.pop() {
                Some(t) => {
                    assert(t == all[n - 1]);
                    if t.spawn_only || tools.allows(&t.name) {
                        back.push(t);
                        assert(back@.reverse() =~= seq![t] + later);
                        assert(kept_tools(tools@, all, n - 1) + back@.reverse() =~= kept_tools(
                            tools@,
                            all,
                            n,
                        ) + later);
                    }
                    assert(rest@ =~= all.take(n - 1));
                },
                None => {},
            }
        }
        let mut out: Vec<RegisteredTool> = Vec::new();
        let ghost whole = back@.reverse();
        assert(kept_tools(tools@, all, 0) + whole =~= whole);
        while back.len() > 0
            invariant
                out@ + back@.reverse() == whole,
            decreases back.len(),
        {
            let ghost before = back@;
            match back.pop() {
                Some(t) => {
                    assert(before.reverse() =~= seq![t] + back@.reverse());
                    out.push(t);
                    assert(out@ + back@.reverse() =~= whole);
                },
                None => {},
            }
        }
        assert(out@ =~= whole);
        self.tools = out;
    }
}

proof fn lemma_kept(tools: ToolsView, all: Seq<RegisteredTool>, n: int, t: RegisteredTool)
    requires
        0 <= n <= all.len(),
    ensures
        kept_tools(tools, all, n).contains(t) <==> (all.take(n).contains(t) && survives(tools, t)),
    decreases n,
{
    if n > 0 {
        lemma_kept(tools, all, n - 1, t);
        let x = all[n - 1];
        let before = kept_tools(tools, all, n - 1);
        assert(all.take(n) =~= all.take(n - 1).push(x));
        assert(all.take(n).contains(t) <==> (all.take(n - 1).contains(t) || t == x)) by {
            let front = all.take(n - 1);
            if front.contains(t) {
                let i = choose|i: int| 0 <= i < front.len() && front[i] == t;
                assert(front.push(x)[i] == t);
            }
            assert(front.push(x)[n - 1] == x);
        }
        assert(before.push(x).contains(t) <==> (before.contains(t) || t == x)) by {
            if before.contains(t) {
                let i = choose|i: int| 0 <= i < before.len() && before[i] == t;
                assert(before.push(x)[i] == t);
            }
            assert(before.push(x)[before.len() as int] == x);
        }
    }
}

/// A tool stays registered exactly where the profile allows it or it only spawns.
pub proof fn filter_mirrors_allows(tools: ToolsView, all: Seq<RegisteredTool>, t: RegisteredTool)
    requires
        all.contains(t),
    ensures
        kept_tools(tools, all, all.len() as int).contains(t) <==> (t.spawn_only || allowed(
            tools,
            t.name@,
        )),
{
    lemma_kept(tools, all, all.len() as int, t);
    assert(all.take(all.len() as int) =~= all);
}

/// No profile drops a tool that only spawns.
pub proof fn spawn_only_tools_survive(
    tools: ToolsView,
    all: Seq<RegisteredTool>,
    t: RegisteredTool,
)
    requires
        all.contains(t),
        t.spawn_only,
    ensures
        kept_tools(tools, all, all.len() as int).contains(t),
{
    filter_mirrors_allows(tools, all, t);
}

/// An empty list, of either kind, does not narrow the tools.
pub proof fn empty_lists_pass_everything(tool: Seq<char>)
    ensures
        allowed(ToolsView::Default, tool),
        allowed(ToolsView::AllowList { tools: Seq::empty() }, tool),
        allowed(ToolsView::DenyList { tools: Seq::empty() }, tool),
{
}

/// A server that a profile wants attached.
#[derive(Debug)]
pub struct McpServerRef {
    pub id: String,
}

impl View for McpServerRef {
    type V = Seq<char>;

    open spec fn view(&self) -> Seq<char> {
        self.id@
    }
}

/// How much is permitted.
#[derive(Debug, Clone, Copy, PartialEq, Eq, Structural)]
pub enum PermissionMode {
    Default,
    Restricted,
}

impl Default for PermissionMode {
    fn default() -> (r: Self)
        ensures
            r == PermissionMode::Default,
    {
        PermissionMode::Default
    }
}

/// When and how far a conversation is shortened.
#[derive(Debug)]
pub struct ProfileCompactionPolicy {
    pub token_budget: Option<u32>,
    pub preflight_threshold: Option<u32>,
    /// A budget for each tier, by its id.
    pub tiers: Vec<(String, u32)>,
}

/// What a [`ProfileCompactionPolicy`] stands for.
#[verifier::ext_equal]
pub struct CompactionView {
    pub token_budget: Option<u32>,
    pub preflight_threshold: Option<u32>,
    pub tiers: Seq<(Seq<char>, u32)>,
}

/// Budgets by tier.
pub open spec fn tiers_view(t: Seq<(String, u32)>) -> Seq<(Seq<char>, u32)> {
    t.map_values(|e: (String, u32)| (e.0@, e.1))
}

impl View for ProfileCompactionPolicy {
    type V = CompactionView;

    open spec fn view(&self) -> CompactionView {
        CompactionView {
            token_budget: self.token_budget,
            preflight_threshold: self.preflight_threshold,
            tiers: tiers_view(self.tiers@),
        }
    }
}

/// Which models are preferred.
#[derive(Debug)]
pub struct ModelPreferences {
    pub default: Option<String>,
    pub fast: Option<String>,
    pub strong: Option<String>,
}

/// What [`ModelPreferences`] stand for.
#[verifier::ext_equal]
pub struct PreferencesView {
    pub default: Option<Seq<char>>,
    pub fast: Option<Seq<char>>,
    pub strong: Option<Seq<char>>,
}

impl View for ModelPreferences {
    type V = PreferencesView;

    open spec fn view(&self) -> PreferencesView {
        PreferencesView {
            default: text::opt(self.default),
            fast: text::opt(self.fast),
            strong: text::opt(self.strong),
        }
    }
}

/// A profile.
#[derive(Debug)]
pub struct ProfileDefinition {
    pub name: String,
    pub version: u32,
    pub description: Option<String>,
    pub tools: ProfileTools,
    pub mcp_servers: Vec<McpServerRef>,
    pub permissions: PermissionMode,
    pub compaction_policy: Option<ProfileCompactionPolicy>,
    pub model_preferences: Option<ModelPreferences>,
    pub system_prompt_template: Option<String>,
    /// The agents that are loaded with it, by their ids.
    pub agents: Vec<String>,
}

/// What a [`ProfileDefinition`] stands for.
#[verifier::ext_equal]
pub struct ProfileView {
    pub name: Seq<char>,
    pub version: u32,
    pub description: Option<Seq<char>>,
    pub tools: ToolsView,
    pub mcp_servers: Seq<Seq<char>>,
    pub permissions: PermissionMode,
    pub compaction_policy: Option<CompactionView>,
    pub model_preferences: Option<PreferencesView>,
    pub system_prompt_template: Option<Seq<char>>,
    pub agents: Seq<Seq<char>>,
}

/// What there is to say of an optional value.
pub open spec fn opt_view<T: View>(o: Option<T>) -> Option<T::V> {
    match o {
        Some(x) => Some(x@),
        None => None,
    }
}

impl View for ProfileDefinition {
    type V = ProfileView;

    open spec fn view(&self) -> ProfileView {
        ProfileView {
            name: self.name@,
            version: self.version,
            description: text::opt(self.description),
            tools: self.tools@,
            mcp_servers: text::views(self.mcp_servers@),
            permissions: self.permissions,
            compaction_policy: opt_view(self.compaction_policy),
            model_preferences: opt_view(self.model_preferences),
            system_prompt_template: text::opt(self.system_prompt_template),
            agents: text::views(self.agents@),
        }
    }
}

/// The profile of which nothing is said but its name.
pub open spec fn bare_profile(name: Seq<char>) -> ProfileView {
    ProfileView {
        name,
        version: PROFILE_SCHEMA_VERSION,
        description: None,
        tools: ToolsView::Default,
        mcp_servers: Seq::empty(),
        permissions: PermissionMode::Default,
        compaction_policy: None,
        model_preferences: None,
        system_prompt_template: None,
        agents: Seq::empty(),
    }
}

fn bare(name: &str) -> (r: ProfileDefinition)
    ensures
        r@ == bare_profile(name@),
{
    let r = ProfileDefinition {
        name: own(name),
        version: PROFILE_SCHEMA_VERSION,
        description: None,
        tools: ProfileTools::Default,
        mcp_servers: Vec::new(),
        permissions: PermissionMode::Default,
        compaction_policy: None,
        model_preferences: None,
        system_prompt_template: None,
        agents: Vec::new(),
    };
    proof {
        text::lemma_views_empty(r.mcp_servers@);
        text::lemma_views_empty(r.agents@);
    }
    r
}

impl Default for ProfileDefinition {
    fn default() -> (r: Self)
        ensures
            r@ == bare_profile(Seq::empty()),
    {
        bare(&String::new())
    }
}

/// Why a profile was not accepted.
#[derive(Debug)]
pub enum ProfileError {
    /// The text is no profile in JSON.
    NotJson,
    /// The text is no profile in TOML.
    NotToml,
    /// A member of a value is missing or of the wrong shape.
    Malformed,
    /// The version is not the one that is understood.
    Version { name: String, version: u32 },
    /// There is no name.
    NameMissing,
    /// It names agents that are not known.
    UnknownAgents { name: String, missing: Vec<String>, known: Vec<String> },
    /// There is no profile of this name.
    UnknownProfile(String),
    /// The file at this path holds no profile, for this cause.
    InFile { path: String, cause: String },
}

/// What a [`ProfileError`] stands for.
#[verifier::ext_equal]
pub enum ErrorView {
    NotJson,
    NotToml,
    Malformed,
    Version { name: Seq<char>, version: u32 },
    NameMissing,
    UnknownAgents { name: Seq<char>, missing: Seq<Seq<char>>, known: Seq<Seq<char>> },
    UnknownProfile(Seq<char>),
    InFile { path: Seq<char>, cause: Seq<char> },
}

impl View for ProfileError {
    type V = ErrorView;

    open spec fn view(&self) -> ErrorView {
        match self {
            ProfileError::NotJson => ErrorView::NotJson,
            ProfileError::NotToml => ErrorView::NotToml,
            ProfileError::Malformed => ErrorView::Malformed,
            ProfileError::Version { name, version } => ErrorView::Version {
                name: name@,
                version: *version,
            },
            ProfileError::NameMissing => ErrorView::NameMissing,
            ProfileError::UnknownAgents { name, missing, known } => ErrorView::UnknownAgents {
                name: name@,
                missing: text::views(missing@),
                known: text::views(known@),
            },
            ProfileError::UnknownProfile(arg) => ErrorView::UnknownProfile(arg@),
            ProfileError::InFile { path, cause } => ErrorView::InFile {
                path: path@,
                cause: cause@,
            },
        }
    }
}

/// What an error says. That of a file names the file; its cause stands beside it.
pub open spec fn error_text(e: ErrorView) -> Seq<char> {
    match e {
        ErrorView::NotJson => "failed to parse ProfileDefinition as JSON"@,
        ErrorView::NotToml => "failed to parse ProfileDefinition as TOML"@,
        ErrorView::Malformed => "profile manifest has a missing or malformed field"@,
        ErrorView::Version { name, version } => "profile '"@ + name
            + "' has unsupported schema version "@ + text::dec(version as nat) + (" (expected "@
            + text::dec(PROFILE_SCHEMA_VERSION as nat) + ")"@),
        ErrorView::NameMissing => "profile manifest is missing a non-empty `name` field"@,
        ErrorView::UnknownAgents { name, missing, known } => "profile '"@ + name
            + "' references agent_definition ids not present in the registry: "@
            + text::debug_list_view(missing) + (" (available: "@ + text::debug_list_view(known)
            + ")"@),
        ErrorView::UnknownProfile(arg) => "unknown profile '"@ + arg
            + "': not a file, no entry in ~/.octos/profiles/, and not a built-in ("@
            + text::join_view(builtin_names(), ", "@) + ")"@,
        ErrorView::InFile { path, .. } => "failed to parse profile at "@ + path,
    }
}

/// The names of the profiles that come with the library.
pub open spec fn builtin_names() -> Seq<Seq<char>> {
    seq!["coding"@, "coding-full"@, "swarm"@]
}

/// The message of a failed look at the agents holds each missing id in quotes, as a list shows
/// it.
pub proof fn missing_agents_are_named(
    name: Seq<char>,
    missing: Seq<Seq<char>>,
    known: Seq<Seq<char>>,
    id: Seq<char>,
)
    requires
        missing.contains(id),
    ensures
        text::has(
            error_text(ErrorView::UnknownAgents { name, missing, known }),
            text::debug_text(id),
        ),
{
    let k = choose|k: int| 0 <= k < missing.len() && missing[k] == id;
    let quoted = text::debug_texts(missing);
    assert(quoted[k] == text::debug_text(id));
    text::lemma_join_has(quoted, ", "@, k);
    text::lemma_has_within("["@, text::join_view(quoted, ", "@), "]"@, quoted[k]);
    text::lemma_has_within(
        "profile '"@ + name
            + "' references agent_definition ids not present in the registry: "@,
        text::debug_list_view(missing),
        " (available: "@ + text::debug_list_view(known) + ")"@,
        quoted[k],
    );
}

proof fn lemma_quoted_has(s: Seq<char>, id: Seq<char>)
    requires
        text::has(s, "\""@ + id + "\""@),
    ensures
        text::has(s, id),
{
    let q = "\""@ + id + "\""@;
    let i = choose|i: int| text::stands_at(s, q, i);
    let at = i + "\""@.len();
    assert(s.subrange(i, i + q.len()) == q);
    assert forall|j: int| 0 <= j < id.len() implies s[at + j] == id[j] by {
        assert(s.subrange(i, i + q.len())["\""@.len() + j] == s[at + j]);
    }
    assert(s.subrange(at, at + id.len()) =~= id);
    assert(text::stands_at(s, id, at));
}

impl ProfileError {
    /// What the error says. Where agents are missing it holds the id of each, but for ids with
    /// characters that quoting escapes.
    pub fn message(&self) -> (r: String)
        ensures
            r@ == error_text(self@),
            self@ matches ErrorView::UnknownAgents { missing, .. } ==> forall|id: Seq<char>| #[trigger]
                missing.contains(id) && text::unescaped(id) ==> text::has(r@, id),
    {
        match self {
            ProfileError::NotJson => own("failed to parse ProfileDefinition as JSON"),
            ProfileError::NotToml => own("failed to parse ProfileDefinition as TOML"),
            ProfileError::Malformed => own("profile manifest has a missing or malformed field"),
            ProfileError::Version { name, version } => {
                let expected = cat3(
                    " (expected ",
                    &dec_string(PROFILE_SCHEMA_VERSION as u128),
                    ")",
                );
                cat5(
                    "profile '",
                    name,
                    "' has unsupported schema version ",
                    &dec_string(*version as u128),
                    &expected,
                )
            },
            ProfileError::NameMissing => own(
                "profile manifest is missing a non-empty `name` field",
            ),
            ProfileError::UnknownAgents { name, missing, known } => {
                let shown = debug_list(missing, missing.len());
                let rest = debug_list(known, known.len());
                assert(text::views(missing@).take(missing@.len() as int) =~= text::views(
                    missing@,
                ));
                assert(text::views(known@).take(known@.len() as int) =~= text::views(known@));
                let available = cat3(" (available: ", &rest, ")");
                let said = cat5(
                    "profile '",
                    name,
                    "' references agent_definition ids not present in the registry: ",
                    &shown,
                    &available,
                );
                proof {
                    let ids = text::views(missing@);
                    let all = text::views(known@);
                    assert(said@ == error_text(self@));
                    assert forall|id: Seq<char>| #[trigger]
                        ids.contains(id) && text::unescaped(id) implies text::has(said@, id) by {
                        let k = choose|k: int| 0 <= k < ids.len() && ids[k] == id;
                        assert(missing@[k]@ == id);
                        missing_agents_are_named(name@, ids, all, id);
                        lemma_quoted_has(said@, id);
                    }
                }
                said
            },
            ProfileError::UnknownProfile(arg) => {
                let names = ProfileDefinition::builtin_ids();
                cat5(
                    "unknown profile '",
                    arg,
                    "': not a file, no entry in ~/.octos/profiles/, and not a built-in (",
                    &crate::text::join(&names, ", "),
                    ")",
                )
            },
            ProfileError::InFile { path, .. } => cat("failed to parse profile at ", path),
        }
    }
}

/// Why a profile is not valid: its version is looked at before its name.
pub open spec fn invalid(p: ProfileView) -> Option<ErrorView> {
    if p.version != PROFILE_SCHEMA_VERSION {
        Some(ErrorView::Version { name: p.name, version: p.version })
    } else if text::trim_view(p.name).len() == 0 {
        Some(ErrorView::NameMissing)
    } else {
        None
    }
}

/// The agents that are known.
#[derive(Debug)]
pub struct AgentDefinitions {
    pub ids: Vec<String>,
}

/// The ids, among the first `n`, that are not known.
pub open spec fn unknown_among(ids: Seq<Seq<char>>, known: Seq<Seq<char>>, n: int) -> Seq<Seq<char>>
    decreases n,
{
    if n <= 0 {
        Seq::empty()
    } else if known.contains(ids[n - 1]) {
        unknown_among(ids, known, n - 1)
    } else {
        unknown_among(ids, known, n - 1).push(ids[n - 1])
    }
}

impl AgentDefinitions {
    /// The agents that come with the library.
    pub fn with_builtins() -> (r: Self)
        ensures
            text::views(r.ids@) == builtin_agents(),
    {
        AgentDefinitions { ids: own_agents() }
    }
}

/// The agents that come with the library.
pub open spec fn builtin_agents() -> Seq<Seq<char>> {
    seq!["research-worker"@, "repo-editor"@]
}

fn own_agents() -> (r: Vec<String>)
    ensures
        text::views(r@) == builtin_agents(),
{
    let r = vec![own("research-worker"), own("repo-editor")];
    assert(text::views(r@) =~= builtin_agents());
    r
}

proof fn lemma_unknown_among(ids: Seq<Seq<char>>, known: Seq<Seq<char>>, n: int, id: Seq<char>)
    requires
        0 <= n <= ids.len(),
    ensures
        unknown_among(ids, known, n).contains(id) <==> ids.take(n).contains(id) && !known.contains(
            id,
        ),
    decreases n,
{
    if n > 0 {
        let last = ids[n - 1];
        let before = unknown_among(ids, known, n - 1);
        lemma_unknown_among(ids, known, n - 1, id);
        assert(ids.take(n) =~= ids.take(n - 1).push(last));
        assert(ids.take(n - 1).push(last).contains(id) <==> ids.take(n - 1).contains(id) || id
            == last) by {
            let front = ids.take(n - 1);
            if front.contains(id) {
                let k = choose|k: int| 0 <= k < front.len() && front[k] == id;
                assert(front.push(last)[k] == id);
            }
            assert(front.push(last)[n - 1] == last);
        }
        assert(before.push(last).contains(id) <==> before.contains(id) || id == last) by {
            if before.contains(id) {
                let k = choose|k: int| 0 <= k < before.len() && before[k] == id;
                assert(before.push(last)[k] == id);
            }
            assert(before.push(last)[before.len() as int] == last);
        }
    }
}

/// The agents that a check misses are those that the profile names and nobody knows; there is
/// none exactly where every agent of the profile is known.
pub proof fn unknown_agents_are_the_missing_ones(ids: Seq<Seq<char>>, known: Seq<Seq<char>>)
    ensures
        ({
            let missing = unknown_among(ids, known, ids.len() as int);
            &&& forall|id: Seq<char>| #[trigger]
                missing.contains(id) <==> ids.contains(id) && !known.contains(id)
            &&& missing.len() == 0 <==> forall|id: Seq<char>| #[trigger]
                ids.contains(id) ==> known.contains(id)
        }),
{
    let missing = unknown_among(ids, known, ids.len() as int);
    assert(ids.take(ids.len() as int) =~= ids);
    assert forall|id: Seq<char>| #[trigger]
        missing.contains(id) <==> ids.contains(id) && !known.contains(id) by {
        lemma_unknown_among(ids, known, ids.len() as int, id);
    }
    if missing.len() > 0 {
        assert(missing.contains(missing[0]));
        assert(ids.contains(missing[0]));
    } else {
        assert forall|id: Seq<char>| #[trigger] ids.contains(id) implies known.contains(id) by {
            assert(!missing.contains(id));
        }
    }
}

impl ProfileDefinition {
    /// Accepts the profile where its version is the one that is understood and it has a name.
    pub fn validate(&self) -> (r: Result<(), ProfileError>)
        ensures
            (match r {
                Ok(_) => None,
                Err(e) => Some(e@),
            }) == invalid(self@),
    {
        if self.version != PROFILE_SCHEMA_VERSION {
            return Err(ProfileError::Version { name: own(&self.name), version: self.version });
        }
        if trim(&self.name).as_str().is_empty() {
            return Err(ProfileError::NameMissing);
        }
        Ok(())
    }

    /// The agents that the profile names and that are not known, in its order.
    pub fn unknown_agent_ids(&self, registry: &AgentDefinitions) -> (r: Vec<String>)
        ensures
            text::views(r@) == unknown_among(
                self@.agents,
                text::views(registry.ids@),
                self@.agents.len() as int,
            ),
    {
        broadcast use text::lemma_views_push;

        let ghost ids = text::views(self.agents@);
        let ghost known = text::views(registry.ids@);
        let mut out: Vec<String> = Vec::new();
        let mut i: usize = 0;
        proof {
            text::lemma_views_empty(out@);
        }
        while i < self.agents.len()
            invariant
                i <= self.agents.len(),
                ids == text::views(self.agents@),
                known == text::views(registry.ids@),
                text::views(out@) == unknown_among(ids, known, i as int),
            decreases self.agents.len() - i,
        {
            broadcast use text::lemma_views_push;

            assert(ids[i as int] == self.agents@[i as int]@);
            if !list_has(&registry.ids, &self.agents[i]) {
                out.push(own(&self.agents[i]));
            }
            i += 1;
        }
        out
    }

    /// Accepts the profile where every agent that it names is known.
    pub fn validate_against_registry(&self, registry: &AgentDefinitions) -> (r: Result<
        (),
        ProfileError,
    >)
        ensures
            (match r {
                Ok(_) => None,
                Err(e) => Some(e@),
            }) == ({
                let known = text::views(registry.ids@);
                let missing = unknown_among(self@.agents, known, self@.agents.len() as int);
                if missing.len() == 0 {
                    None
                } else {
                    Some(ErrorView::UnknownAgents { name: self@.name, missing, known })
                }
            }),
    {
        let missing = self.unknown_agent_ids(registry);
        assert(text::views(missing@).len() == missing@.len());
        if missing.len() == 0 {
            return Ok(());
        }
        let mut known: Vec<String> = Vec::new();
        let n: usize = registry.ids.len();
        copy_texts(&mut known, &registry.ids, n);
        Err(ProfileError::UnknownAgents { name: own(&self.name), missing, known })
    }

    /// The names of the profiles that come with the library.
    pub fn builtin_ids() -> (r: Vec<String>)
        ensures
            text::views(r@) == builtin_names(),
    {
        let r = vec![own("coding"), own("coding-full"), own("swarm")];
        assert(text::views(r@) =~= builtin_names());
        r
    }

    /// Drops the tools that do not survive the profile's filter.
    pub fn apply_to_registry(&self, registry: &mut ToolRegistry)
        ensures
            final(registry).tools@ == kept_tools(
                self@.tools,
                old(registry).tools@,
                old(registry).tools@.len() as int,
            ),
    {
        registry.filter_by_profile(&self.tools);
    }
}

fn copy_texts(out: &mut Vec<String>, list: &Vec<String>, n: usize)
    requires
        n == list.len(),
        old(out)@.len() == 0,
    ensures
        text::views(final(out)@) == text::views(list@),
{
    let mut i: usize = 0;
    while i < n
        invariant
            i <= n,
            n == list.len(),
            out.len() == i,
            forall|k: int| 0 <= k < i ==> #[trigger] out@[k]@ == list@[k]@,
        decreases n - i,
    {
        out.push(own(&list[i]));
        i += 1;
    }
    assert(text::views(out@) =~= text::views(list@));
}

/// An agent is reported missing exactly where the profile names it and it is not known.
pub proof fn missing_agents_are_the_unknown_ones(
    ids: Seq<Seq<char>>,
    known: Seq<Seq<char>>,
    id: Seq<char>,
)
    ensures
        unknown_among(ids, known, ids.len() as int).contains(id) <==> (ids.contains(id)
            && !known.contains(id)),
{
    lemma_unknown(ids, known, ids.len() as int, id);
    assert(ids.take(ids.len() as int) =~= ids);
}

proof fn lemma_unknown(ids: Seq<Seq<char>>, known: Seq<Seq<char>>, n: int, id: Seq<char>)
    requires
        0 <= n <= ids.len(),
    ensures
        unknown_among(ids, known, n).contains(id) <==> (ids.take(n).contains(id)
            && !known.contains(id)),
    decreases n,
{
    if n > 0 {
        lemma_unknown(ids, known, n - 1, id);
        let x = ids[n - 1];
        let before = unknown_among(ids, known, n - 1);
        assert(ids.take(n).contains(id) <==> (ids.take(n - 1).contains(id) || id == x)) by {
            let front = ids.take(n - 1);
            assert(ids.take(n) =~= front.push(x));
            if front.contains(id) {
                let i = choose|i: int| 0 <= i < front.len() && front[i] == id;
                assert(front.push(x)[i] == id);
            }
            assert(front.push(x)[n - 1] == x);
        }
        assert(before.push(x).contains(id) <==> (before.contains(id) || id == x)) by {
            if before.contains(id) {
                let i = choose|i: int| 0 <= i < before.len() && before[i] == id;
                assert(before.push(x)[i] == id);
            }
            assert(before.push(x)[before.len() as int] == x);
        }
    }
}

/// The profile `coding`: what a coding session needs at its core.
pub open spec fn coding_profile() -> ProfileView {
    ProfileView {
        description: Some("Core coding loop"@),
        tools: ToolsView::AllowList {
            tools: seq![
                "read_file"@,
                "write_file"@,
                "edit_file"@,
                "diff_edit"@,
                "group:runtime"@,
                "group:search"@,
                "group:memory"@,
                "recall"@,
                "spawn"@,
                "ask_user_question"@,
                "check"@,
                "update_plan"@,
                "tool_search"@,
            ],
        },
        agents: builtin_agents(),
        ..bare_profile("coding"@)
    }
}

/// The profile `coding-full`: every tool.
pub open spec fn coding_full_profile() -> ProfileView {
    ProfileView {
        description: Some("Every tool"@),
        agents: builtin_agents(),
        ..bare_profile("coding-full"@)
    }
}

/// The profile `swarm`: what coordinating many workers needs.
pub open spec fn swarm_profile() -> ProfileView {
    ProfileView {
        description: Some("Coordination of many workers"@),
        tools: ToolsView::AllowList {
            tools: seq![
                "group:fs"@,
                "group:runtime"@,
                "group:search"@,
                "group:memory"@,
                "spawn"@,
                "send_to_agent"@,
                "cancel_task"@,
                "relaunch_task"@,
                "run_pipeline"@,
            ],
        },
        agents: builtin_agents(),
        ..bare_profile("swarm"@)
    }
}

/// The profile of a name that comes with the library.
pub open spec fn builtin_profile(name: Seq<char>) -> Option<ProfileView> {
    if name == "coding"@ {
        Some(coding_profile())
    } else if name == "coding-full"@ {
        Some(coding_full_profile())
    } else if name == "swarm"@ {
        Some(swarm_profile())
    } else {
        None
    }
}

impl ProfileDefinition {
    /// The profile of a name that comes with the library, where there is one.
    pub fn builtin(name: &str) -> (r: Option<Self>)
        ensures
            opt_view(r) == builtin_profile(name@),
    {
        if same(name, "coding") {
            let tools = vec![
                own("read_file"),
                own("write_file"),
                own("edit_file"),
                own("diff_edit"),
                own("group:runtime"),
                own("group:search"),
                own("group:memory"),
                own("recall"),
                own("spawn"),
                own("ask_user_question"),
                own("check"),
                own("update_plan"),
                own("tool_search"),
            ];
            assert(text::views(tools@) =~= coding_profile().tools->AllowList_tools);
            Some(
                ProfileDefinition {
                    description: Some(own("Core coding loop")),
                    tools: ProfileTools::AllowList { tools },
                    agents: own_agents(),
                    ..bare("coding")
                },
            )
        } else if same(name, "coding-full") {
            Some(
                ProfileDefinition {
                    description: Some(own("Every tool")),
                    agents: own_agents(),
                    ..bare("coding-full")
                },
            )
        } else if same(name, "swarm") {
            let tools = vec![
                own("group:fs"),
                own("group:runtime"),
                own("group:search"),
                own("group:memory"),
                own("spawn"),
                own("send_to_agent"),
                own("cancel_task"),
                own("relaunch_task"),
                own("run_pipeline"),
            ];
            assert(text::views(tools@) =~= swarm_profile().tools->AllowList_tools);
            Some(
                ProfileDefinition {
                    description: Some(own("Coordination of many workers")),
                    tools: ProfileTools::AllowList { tools },
                    agents: own_agents(),
                    ..bare("swarm")
                },
            )
        } else {
            None
        }
    }
}

/// There is a profile for each of the names that are listed and for no other; each has its
/// name, is valid, and names only agents that are known.
pub proof fn builtin_profiles_are_valid(name: Seq<char>)
    ensures
        builtin_profile(name) is Some <==> builtin_names().contains(name),
        builtin_profile(name) matches Some(p) ==> p.name == name && invalid(p) is None
            && unknown_among(p.agents, builtin_agents(), p.agents.len() as int).len() == 0,
{
    reveal_strlit("coding");
    reveal_strlit("coding-full");
    reveal_strlit("swarm");
    let names = builtin_names();
    assert(names[0] == "coding"@ && names[1] == "coding-full"@ && names[2] == "swarm"@);
    assert("coding"@.len() == 6 && "coding-full"@.len() == 11 && "swarm"@.len() == 5);
    text::lemma_trim_nothing("coding"@);
    text::lemma_trim_nothing("coding-full"@);
    text::lemma_trim_nothing("swarm"@);
    let agents = builtin_agents();
    assert(agents[0] == "research-worker"@ && agents[1] == "repo-editor"@);
    assert(agents.contains(agents[0]) && agents.contains(agents[1]));
    reveal_with_fuel(unknown_among, 3);
}

/// Whether an argument is a path rather than the name of a profile.
pub open spec fn path_like(arg: Seq<char>, windows: bool) -> bool {
    ||| text::starts(arg, "/"@)
    ||| text::starts(arg, "./"@)
    ||| text::starts(arg, "~/"@)
    ||| text::starts(arg, "../"@)
    ||| paths::absolute(arg, windows)
}

/// Whether an argument is a path rather than the name of a profile.
pub fn looks_like_path(arg: &str, windows: bool) -> (r: bool)
    ensures
        r == path_like(arg@, windows),
{
    starts_with(arg, "/") || starts_with(arg, "./") || starts_with(arg, "~/") || starts_with(
        arg,
        "../",
    ) || is_absolute(arg, windows)
}

/// A path with the home directory in place of a leading `~/`, where there is one.
pub open spec fn expanded(arg: Seq<char>, home: Option<Seq<char>>, windows: bool) -> Seq<char> {
    match (text::after_prefix(arg, "~/"@), home) {
        (Some(rest), Some(h)) => paths::joined(h, rest, windows),
        _ => arg,
    }
}

/// A path with the home directory in place of a leading `~/`, where there is one.
pub fn expand_tilde(arg: &str, home: Option<&str>, windows: bool) -> (r: String)
    ensures
        r@ == expanded(
            arg@,
            match home {
                Some(h) => Some(h@),
                None => None,
            },
            windows,
        ),
{
    if let Some(rest) = strip_prefix(arg, "~/") {
        if let Some(h) = home {
            return join_paths(h, &rest, windows);
        }
    }
    own(arg)
}

/// Where a profile is looked for.
#[derive(Debug)]
pub enum ProfileLookup {
    /// In this file.
    File(String),
    /// In the first of these files that is there, then among those that come with the library.
    Named(Vec<String>),
}

/// What a [`ProfileLookup`] stands for.
#[verifier::ext_equal]
pub enum LookupView {
    File(Seq<char>),
    Named(Seq<Seq<char>>),
}

impl View for ProfileLookup {
    type V = LookupView;

    open spec fn view(&self) -> LookupView {
        match self {
            ProfileLookup::File(p) => LookupView::File(p@),
            ProfileLookup::Named(ps) => LookupView::Named(text::views(ps@)),
        }
    }
}

/// Where a profile is looked for: a path by itself; a name among the user's profiles.
pub open spec fn lookup_view(arg: Seq<char>, home: Option<Seq<char>>, windows: bool) -> LookupView {
    if path_like(arg, windows) {
        LookupView::File(expanded(arg, home, windows))
    } else {
        match home {
            Some(h) => {
                let dir = paths::joined(paths::joined(h, ".octos/profiles"@, windows), arg, windows);
                LookupView::Named(
                    seq![
                        paths::joined(dir, "profile.toml"@, windows),
                        paths::joined(dir, "profile.json"@, windows),
                    ],
                )
            },
            None => LookupView::Named(Seq::empty()),
        }
    }
}

/// What reading a file ends with: an error names the file.
pub open spec fn in_file(path: Seq<char>, r: Result<ProfileView, ErrorView>) -> Result<
    ProfileView,
    ErrorView,
> {
    match r {
        Ok(p) => Ok(p),
        Err(e) => Err(ErrorView::InFile { path, cause: error_text(e) }),
    }
}

/// The profile that a lookup ends with: the one that was read from a file, else the one of that
/// name that comes with the library.
pub open spec fn loaded(
    arg: Seq<char>,
    windows: bool,
    found: Option<Result<ProfileView, ErrorView>>,
) -> Result<(ProfileView, ProfileSource), ErrorView> {
    match found {
        Some(Ok(p)) => Ok(
            (
                p,
                if path_like(arg, windows) {
                    ProfileSource::ExplicitPath
                } else {
                    ProfileSource::UserDir
                },
            ),
        ),
        Some(Err(e)) => Err(e),
        None => if path_like(arg, windows) {
            Err(ErrorView::UnknownProfile(arg))
        } else {
            match builtin_profile(arg) {
                Some(p) => Ok((p, ProfileSource::Builtin)),
                None => Err(ErrorView::UnknownProfile(arg)),
            }
        },
    }
}

/// A profile, or why there is none.
pub open spec fn result_view(r: Result<ProfileDefinition, ProfileError>) -> Result<
    ProfileView,
    ErrorView,
> {
    match r {
        Ok(p) => Ok(p@),
        Err(e) => Err(e@),
    }
}

impl ProfileDefinition {
    /// Where a profile is looked for, given the user's home directory.
    pub fn lookup(arg: &str, home: Option<&str>, windows: bool) -> (r: ProfileLookup)
        ensures
            r@ == lookup_view(
                arg@,
                match home {
                    Some(h) => Some(h@),
                    None => None,
                },
                windows,
            ),
    {
        if looks_like_path(arg, windows) {
            return ProfileLookup::File(expand_tilde(arg, home, windows));
        }
        let mut paths: Vec<String> = Vec::new();
        if let Some(h) = home {
            let dir = join_paths(&join_paths(h, ".octos/profiles", windows), arg, windows);
            paths.push(join_paths(&dir, "profile.toml", windows));
            paths.push(join_paths(&dir, "profile.json", windows));
            assert(text::views(paths@) =~= seq![
                paths::joined(dir@, "profile.toml"@, windows),
                paths::joined(dir@, "profile.json"@, windows),
            ]);
        } else {
            proof {
                text::lemma_views_empty(paths@);
            }
        }
        ProfileLookup::Named(paths)
    }

    /// The profile that a lookup ends with, given what was read from the file that was found.
    pub fn load_with_home(
        arg: &str,
        windows: bool,
        found: Option<Result<ProfileDefinition, ProfileError>>,
    ) -> (r: Result<(Self, ProfileSource), ProfileError>)
        ensures
            (match r {
                Ok((p, s)) => Ok((p@, s)),
                Err(e) => Err(e@),
            }) == loaded(
                arg@,
                windows,
                match found {
                    Some(f) => Some(result_view(f)),
                    None => None,
                },
            ),
    {
        let explicit = looks_like_path(arg, windows);
        match found {
            Some(Ok(p)) => Ok(
                (
                    p,
                    if explicit {
                        ProfileSource::ExplicitPath
                    } else {
                        ProfileSource::UserDir
                    },
                ),
            ),
            Some(Err(e)) => Err(e),
            None => {
                if !explicit {
                    if let Some(p) = ProfileDefinition::builtin(arg) {
                        return Ok((p, ProfileSource::Builtin));
                    }
                }
                Err(ProfileError::UnknownProfile(own(arg)))
            },
        }
    }
}

/// A profile of the user's own comes before one of the same name that comes with the library.
pub proof fn user_profiles_come_first(arg: Seq<char>, windows: bool, p: ProfileView)
    requires
        !path_like(arg, windows),
    ensures
        loaded(arg, windows, Some(Ok(p))) == Ok::<(ProfileView, ProfileSource), ErrorView>(
            (p, ProfileSource::UserDir),
        ),
{
}

/// Whether a name has the extension of TOML, in either case.
pub open spec fn toml_ending(name: Seq<char>) -> bool {
    let n = name.len();
    &&& n >= 6
    &&& name[n - 5] == '.'
    &&& (name[n - 4] == 't' || name[n - 4] == 'T')
    &&& (name[n - 3] == 'o' || name[n - 3] == 'O')
    &&& (name[n - 2] == 'm' || name[n - 2] == 'M')
    &&& (name[n - 1] == 'l' || name[n - 1] == 'L')
}

/// Whether a file is read as TOML: by the extension of its name, in either case.
pub open spec fn toml_named(path: Seq<char>, windows: bool) -> bool {
    let names = paths::components(path, windows);
    names.len() > 0 && toml_ending(names.last())
}

/// Whether a file is read as TOML, by the extension of its name.
pub fn is_toml(path: &str, windows: bool) -> (r: bool)
    ensures
        r == toml_named(path@, windows),
{
    let names = components_of(path, windows);
    let m: usize = names.len();
    assert(text::views(names@).len() == m);
    if m == 0 {
        return false;
    }
    assert(text::views(names@).last() == names@[m - 1]@);
    let v = chars_of(&names[m - 1]);
    let n: usize = v.len();
    n >= 6 && v[n - 5] == '.' && (v[n - 4] == 't' || v[n - 4] == 'T') && (v[n - 3] == 'o' || v[n
        - 3] == 'O') && (v[n - 2] == 'm' || v[n - 2] == 'M') && (v[n - 1] == 'l' || v[n - 1]
        == 'L')
}

} // verus!
