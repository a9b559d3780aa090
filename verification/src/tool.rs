//! What the tools have in common: access modes and results.

use vstd::prelude::*;

use crate::json::{Json, JsonView};
use crate::text;

verus! {

/// Whether a tool may change files.
#[derive(Debug, Clone, Copy, PartialEq, Eq, Structural)]
pub enum FileAccessMode {
    ReadWrite,
    ReadOnly,
}

impl FileAccessMode {
    /// Whether files may be changed.
    pub fn allows_write(&self) -> (r: bool)
        ensures
            r == (*self == FileAccessMode::ReadWrite),
    {
        *self == FileAccessMode::ReadWrite
    }
}

/// Which part of the file system a tool may reach.
#[derive(Debug, Clone, Copy, PartialEq, Eq, Structural)]
pub enum FilesystemScope {
    Workspace,
    Host,
}

/// Why a path was not resolved inside the workspace.
#[derive(Debug)]
pub enum Refusal {
    /// The session's scope refused it, for this reason.
    Session(String),
    /// It lies outside the working directory.
    Workspace,
}

/// Whether calls of a tool may run side by side.
#[derive(Debug, Clone, Copy, PartialEq, Eq, Structural)]
pub enum ConcurrencyClass {
    Safe,
    Exclusive,
}

/// What a tool call gives back.
#[derive(Debug)]
pub struct ToolResult {
    pub output: String,
    pub success: bool,
    pub file_modified: Option<String>,
    pub structured_metadata: Option<Json>,
}

/// What a [`ToolResult`] stands for.
pub struct ToolResultView {
    pub output: Seq<char>,
    pub success: bool,
    pub file_modified: Option<Seq<char>>,
    pub structured_metadata: Option<JsonView>,
}

impl View for ToolResult {
    type V = ToolResultView;

    open spec fn view(&self) -> ToolResultView {
        ToolResultView {
            output: self.output@,
            success: self.success,
            file_modified: text::opt(self.file_modified),
            structured_metadata: match self.structured_metadata {
                Some(j) => Some(j@),
                None => None,
            },
        }
    }
}

/// A result without a changed file or metadata.
pub open spec fn plain_view(output: Seq<char>, success: bool) -> ToolResultView {
    ToolResultView { output, success, file_modified: None, structured_metadata: None }
}

/// A failure that only carries a message.
pub fn plain_failure(output: String) -> (r: ToolResult)
    ensures
        r@ == plain_view(output@, false),
{
    ToolResult { output, success: false, file_modified: None, structured_metadata: None }
}

/// A result that carries metadata.
pub open spec fn detailed_view(
    output: Seq<char>,
    success: bool,
    metadata: JsonView,
) -> ToolResultView {
    ToolResultView {
        output,
        success,
        file_modified: None,
        structured_metadata: Some(metadata),
    }
}

/// A result that carries metadata.
pub fn detailed(output: String, success: bool, metadata: Json) -> (r: ToolResult)
    ensures
        r@ == detailed_view(output@, success, metadata@),
{
    ToolResult { output, success, file_modified: None, structured_metadata: Some(metadata) }
}

} // verus!
