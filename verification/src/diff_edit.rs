//! The `diff_edit` tool: a unified diff is applied to one file.

use vstd::prelude::*;

use crate::bytes;
use crate::bytes::from_utf8;
use crate::diff;
use crate::diff::{apply_hunks, parse_unified_diff, Hunk, HunkView};
use crate::json;
use crate::json::{Json, JsonView, text_json};
use crate::text;
use crate::text::{cat, cat3, cat5, dec_string};
use crate::tool;
use crate::tool::{
    plain_failure, ConcurrencyClass, FileAccessMode, FilesystemScope, Refusal, ToolResult,
    ToolResultView,
};

verus! {

/// The tool that applies a unified diff to a file.
pub struct DiffEditTool {
    pub base_dir: String,
    pub filesystem_scope: FilesystemScope,
    pub file_access: FileAccessMode,
    pub local_edit_enabled: bool,
}

/// How the version of a file is guarded when it is rewritten.
#[derive(Debug, Clone, Copy, PartialEq, Eq, Structural)]
pub enum ExpectedVersionPolicy {
    Optional,
    /// A rewrite that changes nothing is reported as such.
    OptionalNoChange,
}

/// An edit that is ready to be carried out.
#[derive(Debug)]
pub struct PreparedEdit {
    /// The file.
    pub path: String,
    pub hunks: Vec<Hunk>,
    pub policy: ExpectedVersionPolicy,
}

/// What a [`PreparedEdit`] stands for.
pub struct PreparedView {
    pub path: Seq<char>,
    pub hunks: Seq<HunkView>,
    pub policy: ExpectedVersionPolicy,
}

impl View for PreparedEdit {
    type V = PreparedView;

    open spec fn view(&self) -> PreparedView {
        PreparedView { path: self.path@, hunks: text::views(self.hunks@), policy: self.policy }
    }
}

/// The place of the file on disk.
pub open spec fn resolved(path: Seq<char>, found: Result<String, Refusal>) -> Result<
    Seq<char>,
    Seq<char>,
> {
    match found {
        Ok(p) => Ok(p@),
        Err(Refusal::Session(reason)) => Err(reason@ + ": "@ + path),
        Err(Refusal::Workspace) => Err("Path outside working directory: "@ + path),
    }
}

/// What a call comes to: an edit, or the answer to a call that is refused.
pub open spec fn prepared(
    access: FileAccessMode,
    local_edit: bool,
    path: Seq<char>,
    found: Result<String, Refusal>,
    diff: Seq<char>,
) -> Result<PreparedView, ToolResultView> {
    if access == FileAccessMode::ReadOnly {
        Err(
            tool::plain_view(
                "diff_edit is not permitted by read-only filesystem access"@,
                false,
            ),
        )
    } else {
        match resolved(path, found) {
            Err(e) => Err(tool::plain_view(e, false)),
            Ok(at) => match diff::diff_view(diff) {
                Err(e) => Err(tool::plain_view("Failed to parse diff: "@ + e, false)),
                Ok(hunks) => if hunks.len() == 0 {
                    Err(tool::plain_view("No hunks found in diff"@, false))
                } else {
                    Ok(
                        PreparedView {
                            path: at,
                            hunks,
                            policy: if local_edit {
                                ExpectedVersionPolicy::OptionalNoChange
                            } else {
                                ExpectedVersionPolicy::Optional
                            },
                        },
                    )
                },
            },
        }
    }
}

/// What an edit makes of the bytes of its file.
pub open spec fn edited(bytes: Seq<u8>, hunks: Seq<HunkView>) -> Result<Seq<char>, Seq<char>> {
    match bytes::decoded(bytes) {
        None => Err("File is not valid UTF-8 and cannot be edited"@),
        Some(content) => match diff::patched(content, hunks) {
            Ok(out) => Ok(out),
            Err(e) => Err("Failed to apply diff: "@ + e),
        },
    }
}

/// The metadata of an edit: what was observed, and how the place of the hunks was found.
pub open spec fn edit_metadata(observed: JsonView, hunk_count: nat) -> JsonView {
    JsonView::Object(
        json::put(
            json::put(json::members(observed), "matcher"@, JsonView::Text("diff_hunks"@)),
            "hunk_count"@,
            JsonView::Int(hunk_count as int),
        ),
    )
}

/// The metadata of an edit.
fn with_matcher(observed: Json, hunk_count: usize) -> (r: Json)
    ensures
        r@ == edit_metadata(observed@, hunk_count as nat),
{
    observed.into_fields().put("matcher", text_json("diff_hunks")).put(
        "hunk_count",
        Json::Unsigned(hunk_count as u64),
    ).object()
}

/// How an edited file was looked at again once it had been written.
#[derive(Debug)]
pub struct EditReport {
    /// The path as it may be shown.
    pub safe_path: String,
    pub final_label: String,
    pub formatter_label: String,
    pub metadata: Json,
}

/// The answer to an edit that changed nothing.
pub open spec fn no_change_view(
    hunk_count: nat,
    safe_path: Seq<char>,
    version: Seq<char>,
    observed: JsonView,
) -> ToolResultView {
    tool::detailed_view(
        "[no_change] path="@ + safe_path + " matcher=diff_hunks hunks="@ + text::dec(hunk_count)
            + " current="@ + version,
        true,
        edit_metadata(observed, hunk_count),
    )
}

/// The answer to an edit that was carried out.
pub open spec fn done_view(
    hunk_count: nat,
    path: Seq<char>,
    at: Seq<char>,
    report: Option<EditReport>,
    format_note: Option<Seq<char>>,
) -> ToolResultView {
    let lead = "Applied "@ + text::dec(hunk_count) + " hunk(s) to "@;
    match report {
        Some(r) => ToolResultView {
            output: lead + r.safe_path@ + ": final="@ + r.final_label@ + ", formatter="@
                + r.formatter_label@,
            success: true,
            file_modified: Some(at),
            structured_metadata: Some(edit_metadata(r.metadata@, hunk_count)),
        },
        None => ToolResultView {
            output: lead + path + (match format_note {
                Some(note) => note,
                None => Seq::empty(),
            }),
            success: true,
            file_modified: Some(at),
            structured_metadata: None,
        },
    }
}

impl DiffEditTool {
    /// A tool for the workspace at `base_dir`, which may change files.
    pub fn new(base_dir: &str) -> (r: Self)
        ensures
            r.base_dir@ == base_dir@,
            r.filesystem_scope == FilesystemScope::Workspace,
            r.file_access == FileAccessMode::ReadWrite,
            !r.local_edit_enabled,
    {
        DiffEditTool {
            base_dir: base_dir.to_owned(),
            filesystem_scope: FilesystemScope::Workspace,
            file_access: FileAccessMode::ReadWrite,
            local_edit_enabled: false,
        }
    }

    /// The tool with another reach.
    pub fn with_filesystem_scope(self, filesystem_scope: FilesystemScope) -> (r: Self)
        ensures
            r == (DiffEditTool { filesystem_scope, ..self }),
    {
        DiffEditTool { filesystem_scope, ..self }
    }

    /// The tool with another access mode.
    pub fn with_file_access(self, file_access: FileAccessMode) -> (r: Self)
        ensures
            r == (DiffEditTool { file_access, ..self }),
    {
        DiffEditTool { file_access, ..self }
    }

    /// The tool with reports of edits that change nothing and of the final state, or without.
    pub fn with_local_edit_enabled(self, enabled: bool) -> (r: Self)
        ensures
            r == (DiffEditTool { local_edit_enabled: enabled, ..self }),
    {
        DiffEditTool { local_edit_enabled: enabled, ..self }
    }

    /// The name under which a model calls the tool.
    pub fn name(&self) -> (r: &'static str)
        ensures
            r@ == "diff_edit"@,
    {
        "diff_edit"
    }

    /// The tool writes files, so calls never run side by side.
    pub fn concurrency_class(&self) -> (r: ConcurrencyClass)
        ensures
            r == ConcurrencyClass::Exclusive,
    {
        ConcurrencyClass::Exclusive
    }

    /// What a call comes to, given where its path was found and whether the session reports
    /// edits.
    pub fn prepare(
        &self,
        session_local_edit: bool,
        path: &str,
        found: &Result<String, Refusal>,
        diff: &str,
    ) -> (r: Result<PreparedEdit, ToolResult>)
        ensures
            (match r {
                Ok(p) => Ok(p@),
                Err(t) => Err(t@),
            }) == prepared(
                self.file_access,
                self.local_edit_enabled || session_local_edit,
                path@,
                *found,
                diff@,
            ),
    {
        if !self.file_access.allows_write() {
            return Err(
                plain_failure(
                    "diff_edit is not permitted by read-only filesystem access".to_owned(),
                ),
            );
        }
        let at = match found {
            Ok(p) => p.clone(),
            Err(Refusal::Session(reason)) => {
                return Err(plain_failure(cat3(reason, ": ", path)));
            },
            Err(Refusal::Workspace) => {
                return Err(plain_failure(cat("Path outside working directory: ", path)));
            },
        };
        let hunks = match parse_unified_diff(diff) {
            Ok(hunks) => hunks,
            Err(e) => {
                return Err(plain_failure(cat("Failed to parse diff: ", &e)));
            },
        };
        assert(hunks.len() == text::views(hunks@).len());
        if hunks.len() == 0 {
            return Err(plain_failure("No hunks found in diff".to_owned()));
        }
        let policy = if self.local_edit_enabled || session_local_edit {
            ExpectedVersionPolicy::OptionalNoChange
        } else {
            ExpectedVersionPolicy::Optional
        };
        Ok(PreparedEdit { path: at, hunks, policy })
    }
}

impl PreparedEdit {
    /// What the edit makes of the bytes of its file.
    pub fn transform(&self, bytes: &[u8]) -> (r: Result<String, String>)
        ensures
            text::text_or_text(r) == edited(bytes@, self@.hunks),
    {
        match from_utf8(bytes) {
            None => Err("File is not valid UTF-8 and cannot be edited".to_owned()),
            Some(content) => match apply_hunks(&content, &self.hunks) {
                Ok(out) => Ok(out),
                Err(e) => Err(cat("Failed to apply diff: ", &e)),
            },
        }
    }

    /// The answer to the edit where it changed nothing.
    pub fn no_change(&self, safe_path: &str, version: &str, observed: Json) -> (r: ToolResult)
        ensures
            r@ == no_change_view(self@.hunks.len(), safe_path@, version@, observed@),
    {
        let mut output = cat5(
            "[no_change] path=",
            safe_path,
            " matcher=diff_hunks hunks=",
            &dec_string(self.hunks.len() as u128),
            " current=",
        );
        output.append(version);
        ToolResult {
            output,
            success: true,
            file_modified: None,
            structured_metadata: Some(with_matcher(observed, self.hunks.len())),
        }
    }

    /// The answer to the edit where it was carried out.
    pub fn done(
        &self,
        path: &str,
        report: Option<EditReport>,
        format_note: Option<String>,
    ) -> (r: ToolResult)
        ensures
            r@ == done_view(
                self@.hunks.len(),
                path@,
                self@.path,
                report,
                text::opt(format_note),
            ),
    {
        let mut output = cat3("Applied ", &dec_string(self.hunks.len() as u128), " hunk(s) to ");
        match report {
            Some(r) => {
                output.append(&r.safe_path);
                output.append(": final=");
                output.append(&r.final_label);
                output.append(", formatter=");
                output.append(&r.formatter_label);
                ToolResult {
                    output,
                    success: true,
                    file_modified: Some(self.path.clone()),
                    structured_metadata: Some(with_matcher(r.metadata, self.hunks.len())),
                }
            },
            None => {
                output.append(path);
                if let Some(note) = format_note {
                    output.append(&note);
                } else {
                    assert(output@ + Seq::<char>::empty() =~= output@);
                }
                ToolResult {
                    output,
                    success: true,
                    file_modified: Some(self.path.clone()),
                    structured_metadata: None,
                }
            },
        }
    }
}

/// A call that is refused before its file is read never changes it: an edit is prepared only
/// where the tool may write and the diff has a hunk.
pub proof fn prepared_edit_has_a_hunk(
    access: FileAccessMode,
    local_edit: bool,
    path: Seq<char>,
    found: Result<String, Refusal>,
    diff: Seq<char>,
)
    ensures
        prepared(access, local_edit, path, found, diff) matches Ok(p) ==> {
            &&& access == FileAccessMode::ReadWrite
            &&& p.hunks.len() > 0
            &&& found is Ok
            &&& p.path == found->Ok_0@
        },
{
}

} // verus!
