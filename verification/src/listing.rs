//! What the tools say of themselves: their descriptions and their tags.

use vstd::prelude::*;

use crate::agents;
use crate::agents::RoleRegistry;
use crate::apply_patch::ApplyPatchTool;
use crate::catalog::{ToolSearchTool, ToolSuggestTool};
use crate::check::CheckTool;
use crate::command::{BashTool, ExecCommandTool, WriteStdinTool};
use crate::delegate::DelegateAliasTool;
use crate::diff_edit::DiffEditTool;
use crate::image::{ImageGenerationTool, ViewImageTool};
use crate::plan::{RequestUserInputTool, UpdatePlanTool};
use crate::spawn_agent::SpawnAgentTool;
use crate::tasks::{CloseAgentTool, ResumeAgentTool, SendInputTool, WaitAgentTool};
use crate::text;
use crate::text::{cat3, join, own};

verus! {

/// What [`ApplyPatchTool`] does, in the words that a model reads.
pub const APPLY_PATCH: &'static str = "Apply a multi-file patch in the Codex envelope format. Supports adding, \
         deleting, updating, and moving/renaming files in ONE atomic call — the \
         entire patch is validated before any file is written. Update hunks are \
         unified-diff bodies (' ' context, '-' remove, '+' add) under '@@' \
         markers; '@@ <text>' anchors the search at that context line. Example:\n\
         *** Begin Patch\n\
         *** Add File: docs/hello.txt\n\
         +Hello world\n\
         *** Update File: src/app.py\n\
         *** Move to: src/main.py\n\
         @@ def greet():\n\
         -    print(\"Hi\")\n\
         +    print(\"Hello, world!\")\n\
         *** Delete File: obsolete.txt\n\
         *** End Patch\n\
         Paths must be workspace-relative. Also accepts {path, diff} to apply a \
         single-file unified diff.";

impl ApplyPatchTool {
    /// What the tool does.
    pub fn description(&self) -> (r: &'static str)
        ensures
            r@ == APPLY_PATCH@,
    {
        APPLY_PATCH
    }

    /// The tags of the tool.
    pub fn tags(&self) -> (r: Vec<String>)
        ensures
            text::views(r@) == seq!["fs"@, "code"@],
    {
        let tags: Vec<String> = vec![own("fs"), own("code")];
        assert(text::views(tags@) =~= seq!["fs"@, "code"@]);
        tags
    }
}

/// What [`DiffEditTool`] does, in the words that a model reads.
pub const DIFF_EDIT: &'static str = "Apply a unified diff to a file. Supports fuzzy matching (+-3 lines offset). \
         Use standard unified diff format with @@ -start,count +start,count @@ headers.";

impl DiffEditTool {
    /// What the tool does.
    pub fn description(&self) -> (r: &'static str)
        ensures
            r@ == DIFF_EDIT@,
    {
        DIFF_EDIT
    }

    /// The tags of the tool.
    pub fn tags(&self) -> (r: Vec<String>)
        ensures
            text::views(r@) == seq!["fs"@, "code"@],
    {
        let tags: Vec<String> = vec![own("fs"), own("code")];
        assert(text::views(tags@) =~= seq!["fs"@, "code"@]);
        tags
    }
}

/// What [`CheckTool`] does, in the words that a model reads.
pub const CHECK: &'static str = "Run the project's cheap static check and return compact diagnostics (file:line: level: message). \
         Detects the project type from marker files: Cargo.toml -> `cargo check`, tsconfig.json -> `tsc --noEmit`, \
         go.mod -> `go vet ./...`. Reports at most 50 diagnostics and counts the rest. \
         Use after edits to catch compile/type errors early, before running the full test suite.";

impl CheckTool {
    /// What the tool does.
    pub fn description(&self) -> (r: &'static str)
        ensures
            r@ == CHECK@,
    {
        CHECK
    }

    /// The tags of the tool.
    pub fn tags(&self) -> (r: Vec<String>)
        ensures
            text::views(r@) == seq!["code"@],
    {
        let tags: Vec<String> = vec![own("code")];
        assert(text::views(tags@) =~= seq!["code"@]);
        tags
    }
}

/// What [`ExecCommandTool`] does, in the words that a model reads.
pub const EXEC_COMMAND: &'static str = "Run a shell command. For long-running commands, set tty=true or yield_time_ms to receive a session_id and continue with write_stdin.";

impl ExecCommandTool {
    /// What the tool does.
    pub fn description(&self) -> (r: &'static str)
        ensures
            r@ == EXEC_COMMAND@,
    {
        EXEC_COMMAND
    }

    /// The tags of the tool.
    pub fn tags(&self) -> (r: Vec<String>)
        ensures
            text::views(r@) == seq!["runtime"@, "code"@],
    {
        let tags: Vec<String> = vec![own("runtime"), own("code")];
        assert(text::views(tags@) =~= seq!["runtime"@, "code"@]);
        tags
    }
}

/// What [`WriteStdinTool`] does, in the words that a model reads.
pub const WRITE_STDIN: &'static str = "Write characters to a running exec_command session and return recent captured output.";

impl WriteStdinTool {
    /// What the tool does.
    pub fn description(&self) -> (r: &'static str)
        ensures
            r@ == WRITE_STDIN@,
    {
        WRITE_STDIN
    }

    /// The tags of the tool.
    pub fn tags(&self) -> (r: Vec<String>)
        ensures
            text::views(r@) == seq!["runtime"@, "code"@],
    {
        let tags: Vec<String> = vec![own("runtime"), own("code")];
        assert(text::views(tags@) =~= seq!["runtime"@, "code"@]);
        tags
    }
}

/// What [`BashTool`] does, in the words that a model reads.
pub const BASH: &'static str = "Run a one-shot shell command and return stdout/stderr. Non-PTY, non-interactive. Codex-compatible alias of exec_command / shell with a stripped-down schema (`cmd`, optional `timeout_ms`).";

impl BashTool {
    /// What the tool does.
    pub fn description(&self) -> (r: &'static str)
        ensures
            r@ == BASH@,
    {
        BASH
    }

    /// The tags of the tool.
    pub fn tags(&self) -> (r: Vec<String>)
        ensures
            text::views(r@) == seq!["runtime"@, "code"@],
    {
        let tags: Vec<String> = vec![own("runtime"), own("code")];
        assert(text::views(tags@) =~= seq!["runtime"@, "code"@]);
        tags
    }
}

/// What [`SpawnAgentTool`] does, in the words that a model reads.
pub const SPAWN_AGENT: &'static str = "Start a Codex-compatible subagent. When Octos' native spawn tool is registered, this forwards to it and returns the supervised agent handle.";

impl SpawnAgentTool {
    /// What the tool does.
    pub fn description(&self) -> (r: &'static str)
        ensures
            r@ == SPAWN_AGENT@,
    {
        SPAWN_AGENT
    }

    /// The tags of the tool.
    pub fn tags(&self) -> (r: Vec<String>)
        ensures
            text::views(r@) == seq!["gateway"@, "code"@],
    {
        let tags: Vec<String> = vec![own("gateway"), own("code")];
        assert(text::views(tags@) =~= seq!["gateway"@, "code"@]);
        tags
    }
}

/// What [`ViewImageTool`] does, in the words that a model reads.
pub const VIEW_IMAGE: &'static str = "Inspect a local image file (PNG / JPEG / GIF / WEBP / BMP / SVG). Returns format, MIME type, and byte length so the host UI can render a preview.";

impl ViewImageTool {
    /// What the tool does.
    pub fn description(&self) -> (r: &'static str)
        ensures
            r@ == VIEW_IMAGE@,
    {
        VIEW_IMAGE
    }

    /// The tags of the tool.
    pub fn tags(&self) -> (r: Vec<String>)
        ensures
            text::views(r@) == seq!["fs"@, "code"@],
    {
        let tags: Vec<String> = vec![own("fs"), own("code")];
        assert(text::views(tags@) =~= seq!["fs"@, "code"@]);
        tags
    }
}

/// What [`ToolSearchTool`] does, in the words that a model reads.
pub const TOOL_SEARCH: &'static str = "Search the active coding tool contract for tools whose name or description matches a query. Returns ranked matches with `name`, `description`, and `tags`.";

impl ToolSearchTool {
    /// What the tool does.
    pub fn description(&self) -> (r: &'static str)
        ensures
            r@ == TOOL_SEARCH@,
    {
        TOOL_SEARCH
    }

    /// The tags of the tool.
    pub fn tags(&self) -> (r: Vec<String>)
        ensures
            text::views(r@) == seq!["code"@, "discovery"@],
    {
        let tags: Vec<String> = vec![own("code"), own("discovery")];
        assert(text::views(tags@) =~= seq!["code"@, "discovery"@]);
        tags
    }
}

/// What [`ToolSuggestTool`] does, in the words that a model reads.
pub const TOOL_SUGGEST: &'static str = "Suggest tools for a free-form task description. Returns up to N ranked tools from the active coding tool contract.";

impl ToolSuggestTool {
    /// What the tool does.
    pub fn description(&self) -> (r: &'static str)
        ensures
            r@ == TOOL_SUGGEST@,
    {
        TOOL_SUGGEST
    }

    /// The tags of the tool.
    pub fn tags(&self) -> (r: Vec<String>)
        ensures
            text::views(r@) == seq!["code"@, "discovery"@],
    {
        let tags: Vec<String> = vec![own("code"), own("discovery")];
        assert(text::views(tags@) =~= seq!["code"@, "discovery"@]);
        tags
    }
}

/// What [`ImageGenerationTool`] does, in the words that a model reads.
pub const IMAGE_GENERATION: &'static str = "Generate an image from a text prompt. STUB: no native or skill backend is bound yet (#1149 follow-up); calls return a typed `coding_tool_unsupported` error envelope.";

impl ImageGenerationTool {
    /// What the tool does.
    pub fn description(&self) -> (r: &'static str)
        ensures
            r@ == IMAGE_GENERATION@,
    {
        IMAGE_GENERATION
    }

    /// The tags of the tool.
    pub fn tags(&self) -> (r: Vec<String>)
        ensures
            text::views(r@) == seq!["media"@, "code"@],
    {
        let tags: Vec<String> = vec![own("media"), own("code")];
        assert(text::views(tags@) =~= seq!["media"@, "code"@]);
        tags
    }
}

/// What [`UpdatePlanTool`] does, in the words that a model reads.
pub const UPDATE_PLAN: &'static str = "Update the visible task plan for Codex-compatible coding workflows.";

impl UpdatePlanTool {
    /// What the tool does.
    pub fn description(&self) -> (r: &'static str)
        ensures
            r@ == UPDATE_PLAN@,
    {
        UPDATE_PLAN
    }

    /// The tags of the tool.
    pub fn tags(&self) -> (r: Vec<String>)
        ensures
            text::views(r@) == seq!["code"@],
    {
        let tags: Vec<String> = vec![own("code")];
        assert(text::views(tags@) =~= seq!["code"@]);
        tags
    }
}

/// What [`RequestUserInputTool`] does, in the words that a model reads.
pub const REQUEST_USER_INPUT: &'static str = "Request structured user input from the host UI.";

impl RequestUserInputTool {
    /// What the tool does.
    pub fn description(&self) -> (r: &'static str)
        ensures
            r@ == REQUEST_USER_INPUT@,
    {
        REQUEST_USER_INPUT
    }

    /// The tags of the tool.
    pub fn tags(&self) -> (r: Vec<String>)
        ensures
            text::views(r@) == seq!["code"@],
    {
        let tags: Vec<String> = vec![own("code")];
        assert(text::views(tags@) =~= seq!["code"@]);
        tags
    }
}

/// What [`SendInputTool`] does, in the words that a model reads.
pub const SEND_INPUT: &'static str = "Send input to a Codex-compatible subagent.";

impl SendInputTool {
    /// What the tool does.
    pub fn description(&self) -> (r: &'static str)
        ensures
            r@ == SEND_INPUT@,
    {
        SEND_INPUT
    }

    /// The tags of the tool.
    pub fn tags(&self) -> (r: Vec<String>)
        ensures
            text::views(r@) == seq!["code"@],
    {
        let tags: Vec<String> = vec![own("code")];
        assert(text::views(tags@) =~= seq!["code"@]);
        tags
    }
}

/// What [`ResumeAgentTool`] does, in the words that a model reads.
pub const RESUME_AGENT: &'static str = "Resume a Codex-compatible subagent handle.";

impl ResumeAgentTool {
    /// What the tool does.
    pub fn description(&self) -> (r: &'static str)
        ensures
            r@ == RESUME_AGENT@,
    {
        RESUME_AGENT
    }

    /// The tags of the tool.
    pub fn tags(&self) -> (r: Vec<String>)
        ensures
            text::views(r@) == seq!["code"@],
    {
        let tags: Vec<String> = vec![own("code")];
        assert(text::views(tags@) =~= seq!["code"@]);
        tags
    }
}

/// What [`WaitAgentTool`] does, in the words that a model reads.
pub const WAIT_AGENT: &'static str = "Inspect or wait on Codex-compatible subagent handles.";

impl WaitAgentTool {
    /// What the tool does.
    pub fn description(&self) -> (r: &'static str)
        ensures
            r@ == WAIT_AGENT@,
    {
        WAIT_AGENT
    }

    /// The tags of the tool.
    pub fn tags(&self) -> (r: Vec<String>)
        ensures
            text::views(r@) == seq!["code"@],
    {
        let tags: Vec<String> = vec![own("code")];
        assert(text::views(tags@) =~= seq!["code"@]);
        tags
    }
}

/// What [`CloseAgentTool`] does, in the words that a model reads.
pub const CLOSE_AGENT: &'static str = "Close or cancel a Codex-compatible subagent handle.";

impl CloseAgentTool {
    /// What the tool does.
    pub fn description(&self) -> (r: &'static str)
        ensures
            r@ == CLOSE_AGENT@,
    {
        CLOSE_AGENT
    }

    /// The tags of the tool.
    pub fn tags(&self) -> (r: Vec<String>)
        ensures
            text::views(r@) == seq!["code"@],
    {
        let tags: Vec<String> = vec![own("code")];
        assert(text::views(tags@) =~= seq!["code"@]);
        tags
    }
}

/// The description of [`DelegateAliasTool`] up to the names of the roles.
pub const DELEGATE_HEAD: &'static str = "Spawn a supervised Codex-compatible subagent, wait for it to finish, and return the result + artifacts. One-call wrapper around `spawn_agent` + `wait_agent`. `role` resolves through the M14-C role template registry (";

/// The description of [`DelegateAliasTool`] after the names of the roles.
pub const DELEGATE_TAIL: &'static str = ").";

impl DelegateAliasTool {
    /// What the tool does; it lists the roles of the registry.
    pub fn description(&self, registry: &RoleRegistry) -> (r: String)
        ensures
            r@ == DELEGATE_HEAD@ + text::join_view(agents::role_names(registry.templates@), " / "@)
                + DELEGATE_TAIL@,
    {
        cat3(DELEGATE_HEAD, join(&registry.names(), " / ").as_str(), DELEGATE_TAIL)
    }

    /// The tags of the tool.
    pub fn tags(&self) -> (r: Vec<String>)
        ensures
            text::views(r@) == seq!["gateway"@, "code"@],
    {
        let tags: Vec<String> = vec![own("gateway"), own("code")];
        assert(text::views(tags@) =~= seq!["gateway"@, "code"@]);
        tags
    }
}

} // verus!
