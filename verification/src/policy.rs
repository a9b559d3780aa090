//! Tool policies: groups of tools, and which tools an entry of a list stands for.

use vstd::prelude::*;

use crate::text;
use crate::text::{chars_of, list_has, own, same, starts_with, string_of};

verus! {

/// A named group of tools.
#[derive(Debug)]
pub struct ToolGroupInfo {
    pub name: String,
    pub tools: Vec<String>,
}

/// The tools of a group, where there is such a group. Every tool that runs commands is in
/// `group:runtime`, and every tool that starts other agents in `group:sessions`, under each of
/// its names.
pub open spec fn group_members(group: Seq<char>) -> Option<Seq<Seq<char>>> {
    if group == "group:fs"@ {
        Some(seq!["read_file"@, "write_file"@, "edit_file"@, "diff_edit"@, "apply_patch"@])
    } else if group == "group:runtime"@ {
        Some(seq!["shell"@, "bash"@, "exec_command"@, "write_stdin"@])
    } else if group == "group:search"@ {
        Some(seq!["glob"@, "grep"@, "list_dir"@])
    } else if group == "group:web"@ {
        Some(seq!["web_search"@, "web_fetch"@, "browser"@])
    } else if group == "group:memory"@ {
        Some(seq!["save_memory"@, "recall_memory"@])
    } else if group == "group:sessions"@ {
        Some(
            seq![
                "spawn"@,
                "spawn_agent"@,
                "send_input"@,
                "wait_agent"@,
                "resume_agent"@,
                "close_agent"@,
                "delegate"@,
            ],
        )
    } else if group == "group:research"@ {
        Some(seq!["synthesize_research"@])
    } else if group == "group:media"@ {
        Some(seq!["image_generation"@, "view_image"@])
    } else {
        None
    }
}

fn owned(names: &Vec<&'static str>) -> (r: Vec<String>)
    ensures
        text::views(r@) == names@.map_values(|s: &'static str| s@),
{
    let mut out: Vec<String> = Vec::new();
    let mut i: usize = 0;
    while i < names.len()
        invariant
            i <= names.len(),
            out.len() == i,
            forall|k: int| 0 <= k < i ==> #[trigger] out@[k]@ == names@[k]@,
        decreases names.len() - i,
    {
        out.push(own(names[i]));
        i += 1;
    }
    assert(text::views(out@) =~= names@.map_values(|s: &'static str| s@));
    out
}

fn group_names(group: &str) -> (r: Option<Vec<&'static str>>)
    ensures
        (match r {
            Some(v) => Some(v@.map_values(|s: &'static str| s@)),
            None => None,
        }) == group_members(group@),
{
    let r: Option<Vec<&'static str>> = if same(group, "group:fs") {
        Some(vec!["read_file", "write_file", "edit_file", "diff_edit", "apply_patch"])
    } else if same(group, "group:runtime") {
        Some(vec!["shell", "bash", "exec_command", "write_stdin"])
    } else if same(group, "group:search") {
        Some(vec!["glob", "grep", "list_dir"])
    } else if same(group, "group:web") {
        Some(vec!["web_search", "web_fetch", "browser"])
    } else if same(group, "group:memory") {
        Some(vec!["save_memory", "recall_memory"])
    } else if same(group, "group:sessions") {
        Some(
            vec![
                "spawn",
                "spawn_agent",
                "send_input",
                "wait_agent",
                "resume_agent",
                "close_agent",
                "delegate",
            ],
        )
    } else if same(group, "group:research") {
        Some(vec!["synthesize_research"])
    } else if same(group, "group:media") {
        Some(vec!["image_generation", "view_image"])
    } else {
        None
    };
    proof {
        if let Some(v) = &r {
            assert(v@.map_values(|s: &'static str| s@) =~= group_members(group@)->0);
        }
    }
    r
}

/// What is known of a group of tools.
pub fn tool_group_info(group: &str) -> (r: Option<ToolGroupInfo>)
    ensures
        (match r {
            Some(g) => Some(text::views(g.tools@)),
            None => None,
        }) == group_members(group@),
        r matches Some(g) ==> g.name@ == group@,
{
    match group_names(group) {
        Some(names) => Some(ToolGroupInfo { name: own(group), tools: owned(&names) }),
        None => None,
    }
}

/// Whether an entry of a list stands for a tool: as a group that the tool is in, as a prefix of
/// its name that ends in `*`, or as its name.
pub open spec fn matched(entry: Seq<char>, tool: Seq<char>) -> bool {
    match group_members(entry) {
        Some(members) => members.contains(tool),
        None => if entry.len() > 0 && entry.last() == '*' {
            text::starts(tool, entry.drop_last())
        } else {
            entry == tool
        },
    }
}

/// Whether an entry of a list stands for a tool.
pub fn entry_matches(entry: &str, tool: &str) -> (r: bool)
    ensures
        r == matched(entry@, tool@),
{
    if let Some(names) = group_names(entry) {
        return list_has(&owned(&names), tool);
    }
    let v = chars_of(entry);
    let n: usize = v.len();
    if n > 0 && v[n - 1] == '*' {
        let prefix = string_of(&v, 0, n - 1);
        assert(prefix@ =~= entry@.drop_last());
        starts_with(tool, &prefix)
    } else {
        same(entry, tool)
    }
}

/// Whether an entry of a list stands for a tool.
pub open spec fn any_matched(entries: Seq<Seq<char>>, tool: Seq<char>) -> bool {
    exists|i: int| 0 <= i < entries.len() && matched(#[trigger] entries[i], tool)
}

/// Whether an entry of a list stands for a tool.
pub fn any_entry_matches(entries: &Vec<String>, tool: &str) -> (r: bool)
    ensures
        r == any_matched(text::views(entries@), tool@),
{
    let mut i: usize = 0;
    while i < entries.len()
        invariant
            i <= entries.len(),
            forall|k: int| 0 <= k < i ==> !matched(#[trigger] text::views(entries@)[k], tool@),
        decreases entries.len() - i,
    {
        assert(text::views(entries@)[i as int] == entries@[i as int]@);
        if entry_matches(&entries[i], tool) {
            return true;
        }
        i += 1;
    }
    false
}

} // verus!
