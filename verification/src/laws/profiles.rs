//! Which tools a profile lets through, which profiles there are, and where they are looked for.

use vstd::prelude::*;

use crate::laws::envelopes;
use crate::laws::values;
use crate::paths;
use crate::policy;
use crate::profile;
use crate::profile::{
    ErrorView, LookupView, ProfileSource, ProfileView, RegisteredTool, ToolsView,
};
use crate::text;

verus! {

/// An entry that is neither a group nor ends in a star stands for the tool of its name alone; one
/// that ends in a star for every tool whose name begins with what stands before it.
pub proof fn entries_stand_for_tools(name: Seq<char>, tool: Seq<char>)
    requires
        !text::starts(name, "group:"@),
    ensures
        name.len() == 0 || name.last() != '*' ==> (policy::matched(name, tool) <==> name == tool),
        !text::starts(name + seq!['*'], "group:"@) ==> (policy::matched(name + seq!['*'], tool)
            <==> text::starts(tool, name)),
{
    lemma_groups(name);
    lemma_groups(name + seq!['*']);
    assert((name + seq!['*']).drop_last() =~= name);
}

proof fn lemma_groups(entry: Seq<char>)
    ensures
        policy::group_members(entry) is Some ==> text::starts(entry, "group:"@),
{
    reveal_strlit("group:");
    reveal_strlit("group:fs");
    reveal_strlit("group:runtime");
    reveal_strlit("group:search");
    reveal_strlit("group:web");
    reveal_strlit("group:memory");
    reveal_strlit("group:sessions");
    reveal_strlit("group:research");
    reveal_strlit("group:media");
    if policy::group_members(entry) is Some {
        assert(entry.subrange(0, 6) =~= "group:"@);
    }
}

/// The group of the tools that run commands holds each of them under each of its names, and the
/// group of files each tool that reads or writes them.
pub proof fn groups_hold_their_tools(tool: Seq<char>)
    ensures
        policy::matched("group:runtime"@, tool) <==> (tool == "shell"@ || tool == "bash"@ || tool
            == "exec_command"@ || tool == "write_stdin"@),
        policy::matched("group:fs"@, tool) <==> (tool == "read_file"@ || tool == "write_file"@
            || tool == "edit_file"@ || tool == "diff_edit"@ || tool == "apply_patch"@),
        policy::matched("group:search"@, tool) <==> (tool == "glob"@ || tool == "grep"@ || tool
            == "list_dir"@),
        policy::matched("group:web"@, tool) <==> (tool == "web_search"@ || tool == "web_fetch"@
            || tool == "browser"@),
        policy::matched("group:memory"@, tool) <==> (tool == "save_memory"@ || tool
            == "recall_memory"@),
        policy::matched("group:sessions"@, tool) <==> (tool == "spawn"@ || tool == "spawn_agent"@
            || tool == "send_input"@ || tool == "wait_agent"@ || tool == "resume_agent"@ || tool
            == "close_agent"@ || tool == "delegate"@),
        policy::matched("group:research"@, tool) <==> tool == "synthesize_research"@,
        policy::matched("group:media"@, tool) <==> (tool == "image_generation"@ || tool
            == "view_image"@),
{
    reveal_strlit("group:fs");
    reveal_strlit("group:runtime");
    reveal_strlit("group:search");
    reveal_strlit("group:web");
    reveal_strlit("group:memory");
    reveal_strlit("group:sessions");
    reveal_strlit("group:research");
    reveal_strlit("group:media");
    let (f, r, s, w) = ("group:fs"@, "group:runtime"@, "group:search"@, "group:web"@);
    let (m, n, e, d) = ("group:memory"@, "group:sessions"@, "group:research"@, "group:media"@);
    assert(f[6] == 'f' && r[6] == 'r' && r[7] == 'u' && s[6] == 's' && s[8] == 'a' && w[6] == 'w');
    assert(m[6] == 'm' && m[8] == 'm' && n[6] == 's' && n[8] == 's' && e[6] == 'r' && e[7] == 'e'
        && d[6] == 'm' && d[8] == 'd');
    lemma_members(policy::group_members(r)->0, tool);
    lemma_members(policy::group_members(f)->0, tool);
    lemma_members(policy::group_members(s)->0, tool);
    lemma_members(policy::group_members(w)->0, tool);
    lemma_members(policy::group_members(m)->0, tool);
    lemma_members(policy::group_members(n)->0, tool);
    lemma_members(policy::group_members(e)->0, tool);
    lemma_members(policy::group_members(d)->0, tool);
}

proof fn lemma_members(v: Seq<Seq<char>>, x: Seq<char>)
    requires
        v.len() <= 7,
    ensures
        v.contains(x) <==> (v.len() > 0 && v[0] == x || v.len() > 1 && v[1] == x || v.len() > 2
            && v[2] == x || v.len() > 3 && v[3] == x || v.len() > 4 && v[4] == x || v.len() > 5
            && v[5] == x || v.len() > 6 && v[6] == x),
{
}

/// A list of tools that are allowed lets through what one of its entries stands for, and everything
/// where it is empty; a list of denied ones everything else; and no list everything.
pub proof fn lists_let_tools_through(entries: Seq<Seq<char>>, tool: Seq<char>, i: int)
    ensures
        profile::allowed(ToolsView::Default, tool),
        profile::allowed(ToolsView::AllowList { tools: Seq::empty() }, tool),
        0 <= i < entries.len() && policy::matched(entries[i], tool) ==> profile::allowed(
            ToolsView::AllowList { tools: entries },
            tool,
        ) && !profile::allowed(ToolsView::DenyList { tools: entries }, tool),
        entries.len() > 0 && (forall|k: int|
            0 <= k < entries.len() ==> !policy::matched(#[trigger] entries[k], tool))
            ==> !profile::allowed(ToolsView::AllowList { tools: entries }, tool)
            && profile::allowed(ToolsView::DenyList { tools: entries }, tool),
{
}

/// Of the registered tools those stay that a profile lets through, and those that only spawn; they
/// keep their order.
pub proof fn registered_tools_are_filtered(tools: ToolsView, all: Seq<RegisteredTool>, n: int)
    requires
        0 <= n <= all.len(),
    ensures
        profile::kept_tools(tools, all, n) == all.take(n).filter(
            |t: RegisteredTool| t.spawn_only || profile::allowed(tools, t.name@),
        ),
    decreases n,
{
    reveal(Seq::filter);
    let keep = |t: RegisteredTool| t.spawn_only || profile::allowed(tools, t.name@);
    if n > 0 {
        registered_tools_are_filtered(tools, all, n - 1);
        assert(all.take(n).drop_last() =~= all.take(n - 1));
        assert(all.take(n).last() == all[n - 1]);
    }
}

/// A profile is valid exactly where its version is one and its name is not blank; a wrong version is
/// what is named first.
pub proof fn valid_profiles_have_a_version_and_a_name(p: ProfileView)
    ensures
        profile::invalid(p) is None <==> p.version == 1 && text::trim_view(p.name).len() > 0,
        p.version != 1 ==> profile::invalid(p) == Some(
            ErrorView::Version { name: p.name, version: p.version },
        ),
        p.version == 1 && text::trim_view(p.name).len() == 0 ==> profile::invalid(p) == Some(
            ErrorView::NameMissing,
        ),
{
}

/// A wrong version is told with the name of the profile, its version and the one that is expected; an
/// unknown profile with what was asked for and with the profiles that there are; a bad file with its
/// path.
pub proof fn errors_name_what_is_wrong(name: Seq<char>, version: u32, cause: Seq<char>)
    ensures
        ({
            let wrong = profile::error_text(ErrorView::Version { name, version });
            &&& text::has(wrong, name)
            &&& text::has(wrong, "version "@ + text::dec(version as nat))
            &&& text::has(wrong, "expected "@ + text::dec(1))
        }),
        ({
            let unknown = profile::error_text(ErrorView::UnknownProfile(name));
            &&& text::has(unknown, name)
            &&& text::has(unknown, "coding"@)
            &&& text::has(unknown, "coding-full"@)
            &&& text::has(unknown, "swarm"@)
        }),
        text::ends(profile::error_text(ErrorView::InFile { path: name, cause }), name),
{
    let wrong = profile::error_text(ErrorView::Version { name, version });
    let given = "version "@ + text::dec(version as nat);
    let due = "expected "@ + text::dec(1);
    let middle = "' has unsupported schema version "@;
    let close = " (expected "@ + text::dec(1) + ")"@;
    reveal_strlit("' has unsupported schema version ");
    reveal_strlit("version ");
    reveal_strlit(" (expected ");
    reveal_strlit("expected ");
    let front = "profile '"@;
    assert(wrong =~= front + name + (middle + text::dec(version as nat) + close));
    values::texts_stand_between_their_surroundings(
        front,
        name,
        middle + text::dec(version as nat) + close,
    );
    let head = middle.take(middle.len() - 8);
    assert(middle =~= head + "version "@);
    assert(wrong =~= front + name + head + given + close);
    values::texts_stand_between_their_surroundings(front + name + head, given, close);
    assert(" (expected "@ =~= seq![' ', '('] + "expected "@);
    let before = front + name + middle + text::dec(version as nat) + seq![' ', '('];
    assert(wrong =~= before + due + ")"@);
    values::texts_stand_between_their_surroundings(before, due, ")"@);

    let unknown = profile::error_text(ErrorView::UnknownProfile(name));
    let names = seq!["coding"@, "coding-full"@, "swarm"@];
    let told = "': not a file, no entry in ~/.octos/profiles/, and not a built-in ("@;
    let lead = "unknown profile '"@;
    let list = text::join_view(names, ", "@);
    assert(unknown =~= lead + name + (told + list + ")"@));
    values::texts_stand_between_their_surroundings(lead, name, told + list + ")"@);
    assert(unknown =~= (lead + name + told) + list + ")"@);
    assert(names[0] == "coding"@ && names[1] == "coding-full"@ && names[2] == "swarm"@);
    text::lemma_join_has(names, ", "@, 0);
    text::lemma_join_has(names, ", "@, 1);
    text::lemma_join_has(names, ", "@, 2);
    text::lemma_has_within(lead + name + told, list, ")"@, "coding"@);
    text::lemma_has_within(lead + name + told, list, ")"@, "coding-full"@);
    text::lemma_has_within(lead + name + told, list, ")"@, "swarm"@);
    values::texts_stand_between_their_surroundings(
        "failed to parse profile at "@,
        name,
        Seq::empty(),
    );
}

/// The profile `coding` runs commands, searches, remembers, edits files, plans and checks, and has no
/// other tool: it neither reaches the web nor applies patches of several files.
pub proof fn coding_has_these_tools(tool: Seq<char>)
    ensures
        profile::allowed(profile::coding_profile().tools, tool) <==> {
            ||| policy::matched("group:runtime"@, tool)
            ||| policy::matched("group:search"@, tool)
            ||| policy::matched("group:memory"@, tool)
            ||| tool == "read_file"@
            ||| tool == "write_file"@
            ||| tool == "edit_file"@
            ||| tool == "diff_edit"@
            ||| tool == "recall"@
            ||| tool == "spawn"@
            ||| tool == "ask_user_question"@
            ||| tool == "check"@
            ||| tool == "update_plan"@
            ||| tool == "tool_search"@
        },
        profile::coding_profile().tools is AllowList,
{
    let c = profile::coding_profile().tools->AllowList_tools;
    assert(c.len() == 13);
    assert(c[4] == "group:runtime"@ && c[5] == "group:search"@ && c[6] == "group:memory"@);
    reveal_strlit("read_file");
    lemma_plain("read_file"@, tool);
    assert(c[0] == "read_file"@);
    reveal_strlit("write_file");
    lemma_plain("write_file"@, tool);
    assert(c[1] == "write_file"@);
    reveal_strlit("edit_file");
    lemma_plain("edit_file"@, tool);
    assert(c[2] == "edit_file"@);
    reveal_strlit("diff_edit");
    lemma_plain("diff_edit"@, tool);
    assert(c[3] == "diff_edit"@);
    reveal_strlit("recall");
    lemma_plain("recall"@, tool);
    assert(c[7] == "recall"@);
    reveal_strlit("spawn");
    lemma_plain("spawn"@, tool);
    assert(c[8] == "spawn"@);
    reveal_strlit("ask_user_question");
    lemma_plain("ask_user_question"@, tool);
    assert(c[9] == "ask_user_question"@);
    reveal_strlit("check");
    lemma_plain("check"@, tool);
    assert(c[10] == "check"@);
    reveal_strlit("update_plan");
    lemma_plain("update_plan"@, tool);
    assert(c[11] == "update_plan"@);
    reveal_strlit("tool_search");
    lemma_plain("tool_search"@, tool);
    assert(c[12] == "tool_search"@);
    if policy::any_matched(c, tool) {
        let i = choose|i: int| 0 <= i < c.len() && policy::matched(#[trigger] c[i], tool);
        assert(i == 0 || i == 1 || i == 2 || i == 3 || i == 4 || i == 5 || i == 6 || i == 7 || i == 8
            || i == 9 || i == 10 || i == 11 || i == 12);
    }
}

/// The profile `swarm` edits files, runs commands, searches, remembers and coordinates workers, and
/// has no other tool; `coding-full` has every tool.
pub proof fn swarm_has_these_tools(tool: Seq<char>)
    ensures
        profile::allowed(profile::coding_full_profile().tools, tool),
        profile::allowed(profile::swarm_profile().tools, tool) <==> {
            ||| policy::matched("group:fs"@, tool)
            ||| policy::matched("group:runtime"@, tool)
            ||| policy::matched("group:search"@, tool)
            ||| policy::matched("group:memory"@, tool)
            ||| tool == "spawn"@
            ||| tool == "send_to_agent"@
            ||| tool == "cancel_task"@
            ||| tool == "relaunch_task"@
            ||| tool == "run_pipeline"@
        },
{
    let w = profile::swarm_profile().tools->AllowList_tools;
    assert(w.len() == 9);
    assert(w[0] == "group:fs"@ && w[1] == "group:runtime"@ && w[2] == "group:search"@ && w[3]
        == "group:memory"@);
    reveal_strlit("spawn");
    lemma_plain("spawn"@, tool);
    assert(w[4] == "spawn"@);
    reveal_strlit("send_to_agent");
    lemma_plain("send_to_agent"@, tool);
    assert(w[5] == "send_to_agent"@);
    reveal_strlit("cancel_task");
    lemma_plain("cancel_task"@, tool);
    assert(w[6] == "cancel_task"@);
    reveal_strlit("relaunch_task");
    lemma_plain("relaunch_task"@, tool);
    assert(w[7] == "relaunch_task"@);
    reveal_strlit("run_pipeline");
    lemma_plain("run_pipeline"@, tool);
    assert(w[8] == "run_pipeline"@);
    if policy::any_matched(w, tool) {
        let i = choose|i: int| 0 <= i < w.len() && policy::matched(#[trigger] w[i], tool);
        assert(i == 0 || i == 1 || i == 2 || i == 3 || i == 4 || i == 5 || i == 6 || i == 7 || i
            == 8);
    }
}

proof fn lemma_plain(entry: Seq<char>, tool: Seq<char>)
    requires
        entry.len() > 0,
        entry[0] != 'g',
        entry.last() != '*',
    ensures
        policy::matched(entry, tool) <==> entry == tool,
{
    lemma_groups(entry);
    reveal_strlit("group:");
    if text::starts(entry, "group:"@) {
        assert(entry.subrange(0, 6)[0] == entry[0]);
    }
}

/// The profiles that come with the library are found by their names, each under its own; no other
/// name finds one.
pub proof fn builtin_profiles_are_found_by_name(name: Seq<char>)
    ensures
        profile::builtin_profile(name) is Some <==> (name == "coding"@ || name == "coding-full"@
            || name == "swarm"@),
        profile::builtin_profile(name) matches Some(p) ==> p.name == name && p.version == 1,
{
    reveal_strlit("coding");
    reveal_strlit("coding-full");
    reveal_strlit("swarm");
    assert("coding"@.len() == 6 && "coding-full"@.len() == 11 && "swarm"@.len() == 5);
}

/// A profile that a file gives comes before one of that name that comes with the library; an error of
/// the file is the result; and a path never finds one that comes with the library.
pub proof fn profiles_are_loaded_in_order(
    arg: Seq<char>,
    windows: bool,
    p: ProfileView,
    e: ErrorView,
)
    ensures
        profile::loaded(arg, windows, Some(Ok(p))) matches Ok((q, _)) && q == p,
        profile::loaded(arg, windows, Some(Err(e))) == Err::<(ProfileView, ProfileSource), ErrorView>(
            e,
        ),
        profile::path_like(arg, windows) ==> profile::loaded(arg, windows, None) == Err::<
            (ProfileView, ProfileSource),
            ErrorView,
        >(ErrorView::UnknownProfile(arg)),
        !profile::path_like(arg, windows) && profile::builtin_profile(arg) is Some
            ==> profile::loaded(arg, windows, None) == Ok::<(ProfileView, ProfileSource), ErrorView>(
            (profile::builtin_profile(arg)->0, ProfileSource::Builtin),
        ),
        !profile::path_like(arg, windows) && profile::builtin_profile(arg) is None
            ==> profile::loaded(arg, windows, None) is Err,
{
}

/// An argument that begins with a slash, a dot and a slash, two dots and a slash, or a tilde and a
/// slash is a path; a tilde stands for the home directory. Any other is a name, which is looked for
/// among the user's profiles, as TOML before JSON.
pub proof fn arguments_are_paths_or_names(rest: Seq<char>, arg: Seq<char>, home: Seq<char>)
    ensures
        profile::lookup_view("/"@ + rest, Some(home), false) == LookupView::File("/"@ + rest),
        profile::lookup_view("./"@ + rest, Some(home), false) == LookupView::File("./"@ + rest),
        profile::lookup_view("../"@ + rest, Some(home), false) == LookupView::File("../"@ + rest),
        profile::lookup_view("~/"@ + rest, Some(home), false) == LookupView::File(
            paths::joined(home, rest, false),
        ),
        profile::lookup_view("~/"@ + rest, None, false) == LookupView::File("~/"@ + rest),
        arg.len() > 0 && arg[0] != '/' && arg[0] != '.' && arg[0] != '~' ==> profile::lookup_view(
            arg,
            None,
            false,
        ) == LookupView::Named(Seq::empty()) && profile::lookup_view(arg, Some(home), false)
            == LookupView::Named(
            seq![
                paths::joined(
                    paths::joined(
                        paths::joined(home, ".octos/profiles"@, false),
                        arg,
                        false,
                    ),
                    "profile.toml"@,
                    false,
                ),
                paths::joined(
                    paths::joined(
                        paths::joined(home, ".octos/profiles"@, false),
                        arg,
                        false,
                    ),
                    "profile.json"@,
                    false,
                ),
            ],
        ),
{
    reveal_strlit("/");
    reveal_strlit("./");
    reveal_strlit("../");
    reveal_strlit("~/");
    let (a, b, c, d) = ("/"@ + rest, "./"@ + rest, "../"@ + rest, "~/"@ + rest);
    envelopes::lemma_prefixed("/"@, rest);
    envelopes::lemma_prefixed("./"@, rest);
    envelopes::lemma_prefixed("../"@, rest);
    envelopes::lemma_prefixed("~/"@, rest);
    assert(a[0] == '/' && b[0] == '.' && c[0] == '.' && d[0] == '~');
    envelopes::lemma_starts_first(a, "~/"@);
    envelopes::lemma_starts_first(b, "~/"@);
    envelopes::lemma_starts_first(c, "~/"@);
    if arg.len() > 0 && arg[0] != '/' && arg[0] != '.' && arg[0] != '~' {
        envelopes::lemma_starts_first(arg, "/"@);
        envelopes::lemma_starts_first(arg, "./"@);
        envelopes::lemma_starts_first(arg, "../"@);
        envelopes::lemma_starts_first(arg, "~/"@);
        assert(arg.skip(0) =~= arg);
    }
}

} // verus!
