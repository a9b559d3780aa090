//! Running shell commands: what a call comes to before anything is started, and what its
//! result looks like.

use vstd::prelude::*;

use crate::bytes;
use crate::bytes::{byte_length, from_utf8_lossy, tail_utf8, truncate_utf8};
use crate::codec;
use crate::codec::render_json;
use crate::json;
use crate::json::{text_json, Fields, Json, JsonView};
use crate::laws::commands;
use crate::paths;
use crate::paths::join_paths;
use crate::text;
use crate::text::{
    cat, cat3, chars_of, contains, contains_white, dec_string, ends_with, find_sub, has_char, same, signed_string,
    starts_with, string_of, strip_prefix, trim, trim_end, trim_start,
};
use crate::tool;
use crate::tool::{
    detailed, plain_failure, ConcurrencyClass, FilesystemScope, ToolResult, ToolResultView,
};

verus! {

pub const MAX_EXEC_TIMEOUT_SECS: u64 = 600;

pub const DEFAULT_EXEC_TIMEOUT_SECS: u64 = 120;

pub const DEFAULT_EXEC_YIELD_MS: u64 = 1_000;

/// How much of a command's output is kept, in bytes.
pub const MAX_CAPTURE_BYTES: usize = 50_000;

pub const DEFAULT_BASH_TIMEOUT_SECS: u64 = 120;

pub const MAX_BASH_TIMEOUT_SECS: u64 = 600;

/// Output cut to a number of bytes, but not below 256.
pub open spec fn capped(output: Seq<char>, max_bytes: nat) -> Seq<char> {
    bytes::truncated_view(
        output,
        if max_bytes < 256 {
            256
        } else {
            max_bytes
        },
        "\n... (output truncated)"@,
    )
}

/// Output cut to a number of bytes, but not below 256.
pub fn truncate_output(output: &str, max_bytes: usize) -> (r: String)
    ensures
        r@ == capped(output@, max_bytes as nat),
{
    let cap: usize = if max_bytes < 256 {
        256
    } else {
        max_bytes
    };
    truncate_utf8(output, cap, "\n... (output truncated)")
}

/// A capture buffer that has grown past twice its bound, cut to its last bytes.
pub open spec fn trimmed_capture(s: Seq<char>) -> Seq<char> {
    if bytes::byte_len(s) > 2 * MAX_CAPTURE_BYTES {
        "... (earlier output truncated)\n"@ + bytes::tail(s, MAX_CAPTURE_BYTES as nat)
    } else {
        s
    }
}

/// Cuts a capture buffer that has grown past twice its bound to its last bytes, at a
/// character boundary.
pub fn truncate_capture_in_place(guard: &mut String)
    ensures
        final(guard)@ == trimmed_capture(old(guard)@),
{
    let n: usize = byte_length(guard.as_str());
    if n > MAX_CAPTURE_BYTES * 2 {
        let kept = tail_utf8(guard.as_str(), MAX_CAPTURE_BYTES);
        *guard = cat("... (earlier output truncated)\n", &kept);
    }
}

/// A capture buffer after one more piece of output.
pub open spec fn captured(buffer: Seq<char>, chunk: Seq<u8>, is_stderr: bool) -> Seq<char> {
    let piece = bytes::lossy(chunk);
    let lead = if is_stderr && piece.len() > 0 {
        "\n--- stderr ---\n"@
    } else {
        Seq::empty()
    };
    trimmed_capture(buffer + lead + piece)
}

/// Takes one more piece of output into a capture buffer.
pub fn append_reader_output(buffer: &mut String, chunk: &[u8], is_stderr: bool)
    ensures
        final(buffer)@ == captured(old(buffer)@, chunk@, is_stderr),
{
    let piece = from_utf8_lossy(chunk);
    let ghost before = buffer@;
    if is_stderr && !piece.as_str().is_empty() {
        buffer.append("\n--- stderr ---\n");
    } else {
        assert(before + Seq::<char>::empty() =~= before);
    }
    buffer.append(&piece);
    truncate_capture_in_place(buffer);
}

/// A trimmed capture takes at most twice its bound.
pub proof fn capture_is_bounded(s: Seq<char>)
    ensures
        bytes::byte_len(trimmed_capture(s)) <= 2 * MAX_CAPTURE_BYTES,
{
    let lead = "... (earlier output truncated)\n"@;
    bytes::tail_is_longest(s, MAX_CAPTURE_BYTES as nat);
    bytes::lemma_byte_len_concat(lead, bytes::tail(s, MAX_CAPTURE_BYTES as nat));
    reveal_strlit("... (earlier output truncated)\n");
    bytes::lemma_byte_len_bound(lead);
}

/// What a failed command under a sandbox is explained with. Only the sandbox of macOS can open
/// the caches of toolchains, so only there the setting is named.
pub open spec fn denial_hint(macos: bool) -> Seq<char> {
    if macos {
        "\n\n[sandbox] The command ran inside the sandbox and the kernel denied an access it needs. Paths outside the workspace are not available to it: work inside the workspace, or ask for broader permissions. Toolchain caches such as ~/.rustup and ~/.cargo are opened by `sandbox.allow_toolchains`."@
    } else {
        "\n\n[sandbox] The command ran inside the sandbox and the kernel denied an access it needs. Paths outside the workspace are not available to it: work inside the workspace, or ask for broader permissions."@
    }
}

/// The explanation that goes with output: a command that failed under a sandbox, with a denied
/// access, has one.
pub open spec fn hint_for(
    output: Seq<char>,
    sandboxed: bool,
    macos: bool,
    success: bool,
) -> Option<Seq<char>> {
    if sandboxed && !success && reports_denial(output) {
        Some(denial_hint(macos))
    } else {
        None
    }
}

/// Whether output holds one of the phrases by which a kernel reports a denied access.
pub open spec fn reports_denial(output: Seq<char>) -> bool {
    ||| text::has(output, "Operation not permitted"@)
    ||| text::has(output, "Permission denied"@)
    ||| text::has(output, "Read-only file system"@)
}

/// The explanation of a command that failed under a sandbox with a denied access; any other
/// command needs none.
pub fn sandbox_denial_hint(sandboxed: bool, macos: bool, success: bool, output: &str) -> (r: Option<
    &'static str,
>)
    ensures
        (match r {
            Some(h) => Some(h@),
            None => None,
        }) == hint_for(output@, sandboxed, macos, success),
{
    if sandboxed && !success && (contains(output, "Operation not permitted") || contains(
        output,
        "Permission denied",
    ) || contains(output, "Read-only file system")) {
        if macos {
            Some(
                "\n\n[sandbox] The command ran inside the sandbox and the kernel denied an access it needs. Paths outside the workspace are not available to it: work inside the workspace, or ask for broader permissions. Toolchain caches such as ~/.rustup and ~/.cargo are opened by `sandbox.allow_toolchains`.",
            )
        } else {
            Some(
                "\n\n[sandbox] The command ran inside the sandbox and the kernel denied an access it needs. Paths outside the workspace are not available to it: work inside the workspace, or ask for broader permissions.",
            )
        }
    } else {
        None
    }
}

/// Output cut to a number of bytes, with the explanation of a denied access behind it. The
/// whole output decides whether there is one.
pub open spec fn explained(
    output: Seq<char>,
    sandboxed: bool,
    macos: bool,
    success: bool,
    cap: nat,
) -> Seq<char> {
    match hint_for(output, sandboxed, macos, success) {
        Some(hint) => capped(output, cap) + hint,
        None => capped(output, cap),
    }
}

/// Output cut to a number of bytes, with the explanation of a denied access behind it.
fn explain(output: &str, sandboxed: bool, macos: bool, success: bool, cap: usize) -> (r: String)
    ensures
        r@ == explained(output@, sandboxed, macos, success, cap as nat),
{
    let out = truncate_output(output, cap);
    match sandbox_denial_hint(sandboxed, macos, success, output) {
        Some(hint) => cat(&out, hint),
        None => out,
    }
}

/// What a session shows of its output: a command that is still running has not failed.
pub open spec fn session_output(
    output: Seq<char>,
    exit_code: Option<i32>,
    sandboxed: bool,
    macos: bool,
    cap: nat,
) -> Seq<char> {
    explained(output, sandboxed, macos, exit_code is None || exit_code == Some(0i32), cap)
}

/// What a session shows of its output.
pub fn session_output_payload(
    output: &str,
    exit_code: Option<i32>,
    sandboxed: bool,
    macos: bool,
    cap: usize,
) -> (r: String)
    ensures
        r@ == session_output(output@, exit_code, sandboxed, macos, cap as nat),
{
    let failed = match exit_code {
        Some(code) => code != 0,
        None => false,
    };
    explain(output, sandboxed, macos, !failed, cap)
}

/// The explanation survives the cut: a failed command under a sandbox whose output reports a
/// denied access is always explained, however long its output is.
pub proof fn denials_are_explained(
    output: Seq<char>,
    code: i32,
    macos: bool,
    cap: nat,
)
    requires
        code != 0,
        reports_denial(output),
    ensures
        text::ends(session_output(output, Some(code), true, macos, cap), denial_hint(macos)),
{
    let out = session_output(output, Some(code), true, macos, cap);
    let hint = denial_hint(macos);
    assert(out.subrange(out.len() - hint.len(), out.len() as int) =~= hint);
}

/// Where a receipt looks for changed files.
#[derive(Debug, Clone, Copy, PartialEq, Eq, Structural)]
pub enum ReceiptScope {
    /// The working directory of the call.
    Workdir,
    /// The directory that the command changes to first.
    CdTarget,
}

/// The name of a scope.
pub open spec fn scope_view(s: ReceiptScope) -> Seq<char> {
    match s {
        ReceiptScope::Workdir => "workdir"@,
        ReceiptScope::CdTarget => "cd-target"@,
    }
}

impl ReceiptScope {
    /// The name of this scope.
    pub fn as_str(&self) -> (r: &'static str)
        ensures
            r@ == scope_view(*self),
    {
        match self {
            ReceiptScope::Workdir => "workdir",
            ReceiptScope::CdTarget => "cd-target",
        }
    }
}

/// `s` without the quotes around it, where one kind of quote stands at both ends.
pub open spec fn unquoted(s: Seq<char>) -> Seq<char> {
    if s.len() >= 2 && (s[0] == '\'' && s.last() == '\'' || s[0] == '"' && s.last() == '"') {
        s.subrange(1, s.len() - 1)
    } else {
        s
    }
}

/// Whether a word stands for itself as a directory.
pub open spec fn is_literal(s: Seq<char>) -> bool {
    &&& s.len() > 0
    &&& !s.contains('$')
    &&& !s.contains('`')
    &&& !text::has_white(s)
    &&& !s.contains('\\')
    &&& !text::starts(s, "-"@)
}

/// The directory that a command changes to before it does anything else, as it is written:
/// the one literal word between a leading `cd` and the first `&&`.
pub open spec fn cd_target(command: Seq<char>) -> Option<Seq<char>> {
    match text::after_prefix(text::trim_start_view(command), "cd "@) {
        None => None,
        Some(rest) => match text::first_position(rest, "&&"@) {
            None => None,
            Some(i) => {
                let target = text::trim_view(rest.take(i));
                let literal = unquoted(target);
                if target.len() == 0 || target.contains(';') || !is_literal(literal) {
                    None
                } else {
                    Some(literal)
                }
            },
        },
    }
}

/// A directory with a leading `~` replaced by the home directory.
pub open spec fn expanded(literal: Seq<char>, home: Option<Seq<char>>, windows: bool) -> Option<Seq<char>> {
    if literal == "~"@ {
        home
    } else {
        match text::after_prefix(literal, "~/"@) {
            Some(sub) => match home {
                Some(h) => Some(paths::joined(h, sub, windows)),
                None => None,
            },
            None => Some(literal),
        }
    }
}

/// Where the receipt of a command looks for changed files.
pub open spec fn scope_root(
    workdir: Seq<char>,
    command: Seq<char>,
    home: Option<Seq<char>>,
    windows: bool,
) -> (Seq<char>, ReceiptScope) {
    match cd_target(command) {
        Some(literal) => match expanded(literal, home, windows) {
            Some(path) => (paths::joined(workdir, path, windows), ReceiptScope::CdTarget),
            None => (workdir, ReceiptScope::Workdir),
        },
        None => (workdir, ReceiptScope::Workdir),
    }
}

/// `s` without the quotes around it.
fn unquote(s: &str) -> (r: String)
    ensures
        r@ == unquoted(s@),
{
    let v = chars_of(s);
    let n: usize = v.len();
    if n >= 2 && ((v[0] == '\'' && v[n - 1] == '\'') || (v[0] == '"' && v[n - 1] == '"')) {
        string_of(&v, 1, n - 1)
    } else {
        let r = string_of(&v, 0, n);
        assert(r@ =~= s@);
        r
    }
}

/// The directory that a command changes to before it does anything else.
fn leading_cd(command: &str) -> (r: Option<String>)
    ensures
        text::opt(r) == cd_target(command@),
{
    let trimmed = trim_start(command);
    let rest = match strip_prefix(&trimmed, "cd ") {
        Some(rest) => rest,
        None => {
            return None;
        },
    };
    let v = chars_of(&rest);
    let marker = chars_of("&&");
    let i: usize = match find_sub(&v, &marker) {
        Some(i) => i,
        None => {
            return None;
        },
    };
    let before = string_of(&v, 0, i);
    assert(before@ =~= rest@.take(i as int));
    let target = trim(&before);
    if target.as_str().is_empty() || has_char(&target, ';') {
        return None;
    }
    let literal = unquote(&target);
    if literal.as_str().is_empty() || has_char(&literal, '$') || has_char(&literal, '`')
        || contains_white(&literal) || has_char(&literal, '\\') || starts_with(&literal, "-") {
        None
    } else {
        Some(literal)
    }
}

/// Where the receipt of a command looks for changed files: in the directory that the command
/// changes to first, where it names one literally; else in the working directory.
pub fn receipt_scope_root(workdir: &str, command: &str, home: &Option<String>, windows: bool) -> (r: (
    String,
    ReceiptScope,
))
    ensures
        (r.0@, r.1) == scope_root(workdir@, command@, text::opt(*home), windows),
{
    let literal = match leading_cd(command) {
        Some(literal) => literal,
        None => {
            return (workdir.to_owned(), ReceiptScope::Workdir);
        },
    };
    let path = if same(&literal, "~") {
        match home {
            Some(h) => h.clone(),
            None => {
                return (workdir.to_owned(), ReceiptScope::Workdir);
            },
        }
    } else {
        match strip_prefix(&literal, "~/") {
            Some(sub) => match home {
                Some(h) => join_paths(h, &sub, windows),
                None => {
                    return (workdir.to_owned(), ReceiptScope::Workdir);
                },
            },
            None => literal,
        }
    };
    (join_paths(workdir, &path, windows), ReceiptScope::CdTarget)
}

/// The working directory of a call: the base directory where none is asked for.
pub open spec fn working_directory(
    base_dir: Seq<char>,
    workdir: Option<Seq<char>>,
    found: Option<Seq<char>>,
) -> Result<Seq<char>, Seq<char>> {
    match workdir {
        Some(w) => if text::trim_view(w).len() == 0 {
            Ok(base_dir)
        } else {
            match found {
                Some(p) => Ok(p),
                None => Err("workdir outside allowed filesystem scope: "@ + w),
            }
        },
        None => Ok(base_dir),
    }
}

/// The working directory of a call, given where the one that it asks for was found.
pub fn resolve_optional_workdir(
    base_dir: &str,
    workdir: Option<&String>,
    found: &Option<String>,
) -> (r: Result<String, String>)
    ensures
        text::text_or_text(r) == working_directory(
            base_dir@,
            json::opt_ref(workdir),
            text::opt(*found),
        ),
{
    match workdir {
        Some(w) => {
            let t = trim(w);
            if t.as_str().is_empty() {
                Ok(base_dir.to_owned())
            } else {
                match found {
                    Some(p) => Ok(p.clone()),
                    None => Err(cat("workdir outside allowed filesystem scope: ", w)),
                }
            }
        },
        None => Ok(base_dir.to_owned()),
    }
}

/// What a command policy says of a command.
#[derive(Debug, Clone, Copy, PartialEq, Eq, Structural)]
pub enum Decision {
    Allow,
    Deny,
    Ask,
}

/// Whether a user may be asked.
#[derive(Debug, Clone, Copy, PartialEq, Eq, Structural)]
pub enum ApprovalPolicy {
    Ask,
    Never,
}

impl ApprovalPolicy {
    /// Whether a user may be asked.
    pub fn allows_prompt(&self) -> (r: bool)
        ensures
            r == (*self == ApprovalPolicy::Ask),
    {
        *self == ApprovalPolicy::Ask
    }
}

/// What a command needs before it may run.
#[derive(Debug)]
pub enum Approval {
    /// Nothing.
    Granted,
    /// It may not run; this is the answer.
    Refused(ToolResult),
    /// A user is to be asked, with this text.
    Prompt { title: String, body: String },
}

/// What an [`Approval`] stands for.
pub enum ApprovalView {
    Granted,
    Refused(ToolResultView),
    Prompt { title: Seq<char>, body: Seq<char> },
}

impl View for Approval {
    type V = ApprovalView;

    open spec fn view(&self) -> ApprovalView {
        match self {
            Approval::Granted => ApprovalView::Granted,
            Approval::Refused(r) => ApprovalView::Refused(r@),
            Approval::Prompt { title, body } => ApprovalView::Prompt {
                title: title@,
                body: body@,
            },
        }
    }
}

/// The metadata that all refusals of a command have.
pub open spec fn refusal_fields(
    kind: Seq<char>,
    tool_name: Seq<char>,
    command: Seq<char>,
    cwd: Seq<char>,
) -> Seq<(Seq<char>, JsonView)> {
    seq![
        ("kind"@, JsonView::Text(kind)),
        ("tool_name"@, JsonView::Text(tool_name)),
        ("command"@, JsonView::Text(command)),
        ("cwd"@, JsonView::Text(cwd)),
    ]
}

/// The metadata that all refusals of a command have.
fn refusal_members(kind: &str, tool_name: &str, command: &str, cwd: &str) -> (r: Fields)
    ensures
        r@ == refusal_fields(kind@, tool_name@, command@, cwd@),
{
    let f = Fields::new().with("kind", text_json(kind)).with(
        "tool_name",
        text_json(tool_name),
    ).with("command", text_json(command)).with("cwd", text_json(cwd));
    assert(f@ =~= refusal_fields(kind@, tool_name@, command@, cwd@));
    f
}

/// What a command needs before it may run, given what the policy says of it and whether there
/// is a way to ask a user.
pub open spec fn approval(
    tool_name: Seq<char>,
    command: Seq<char>,
    cwd: Seq<char>,
    decision: Decision,
    policy: ApprovalPolicy,
    has_channel: bool,
) -> ApprovalView {
    match decision {
        Decision::Allow => ApprovalView::Granted,
        Decision::Deny => ApprovalView::Refused(
            tool::detailed_view(
                "Command denied by security policy: "@ + command
                    + "\n\nThis command was blocked because it matches a dangerous pattern."@,
                false,
                JsonView::Object(
                    refusal_fields("command_policy_denied"@, tool_name, command, cwd).push(
                        ("policy"@, JsonView::Text("safe_policy"@)),
                    ),
                ),
            ),
        ),
        Decision::Ask => if policy == ApprovalPolicy::Never {
            ApprovalView::Refused(
                tool::detailed_view(
                    "Command requires approval but approval_policy is never: "@ + command,
                    false,
                    JsonView::Object(
                        refusal_fields("approval_required"@, tool_name, command, cwd).push(
                            ("approval_policy"@, JsonView::Text("never"@)),
                        ),
                    ),
                ),
            )
        } else if !has_channel {
            ApprovalView::Refused(
                tool::detailed_view(
                    "Command requires approval and was denied: "@ + command
                        + "\n\nNo interactive approval channel is available."@,
                    false,
                    JsonView::Object(
                        refusal_fields("approval_unavailable"@, tool_name, command, cwd),
                    ),
                ),
            )
        } else {
            ApprovalView::Prompt { title: "Approve command"@, body: "Run command: "@ + command }
        },
    }
}

/// What a command needs before it may run.
pub fn request_command_approval(
    tool_name: &str,
    command: &str,
    cwd: &str,
    decision: Decision,
    policy: ApprovalPolicy,
    has_channel: bool,
) -> (r: Approval)
    ensures
        r@ == approval(tool_name@, command@, cwd@, decision, policy, has_channel),
{
    match decision {
        Decision::Allow => Approval::Granted,
        Decision::Deny => Approval::Refused(
            detailed(
                cat3(
                    "Command denied by security policy: ",
                    command,
                    "\n\nThis command was blocked because it matches a dangerous pattern.",
                ),
                false,
                refusal_members("command_policy_denied", tool_name, command, cwd).with(
                    "policy",
                    text_json("safe_policy"),
                ).object(),
            ),
        ),
        Decision::Ask => {
            if !policy.allows_prompt() {
                Approval::Refused(
                    detailed(
                        cat("Command requires approval but approval_policy is never: ", command),
                        false,
                        refusal_members("approval_required", tool_name, command, cwd).with(
                            "approval_policy",
                            text_json("never"),
                        ).object(),
                    ),
                )
            } else if !has_channel {
                Approval::Refused(
                    detailed(
                        cat3(
                            "Command requires approval and was denied: ",
                            command,
                            "\n\nNo interactive approval channel is available.",
                        ),
                        false,
                        refusal_members("approval_unavailable", tool_name, command, cwd).object(),
                    ),
                )
            } else {
                Approval::Prompt {
                    title: "Approve command".to_owned(),
                    body: cat("Run command: ", command),
                }
            }
        },
    }
}

/// The answer to a command that a user denied.
pub open spec fn user_denied(
    tool_name: Seq<char>,
    command: Seq<char>,
    cwd: Seq<char>,
) -> ToolResultView {
    tool::detailed_view(
        "Command denied by user approval: "@ + command,
        false,
        JsonView::Object(refusal_fields("approval_denied"@, tool_name, command, cwd)),
    )
}

/// The answer to a command that a user denied.
pub fn denied_by_user(tool_name: &str, command: &str, cwd: &str) -> (r: ToolResult)
    ensures
        r@ == user_denied(tool_name@, command@, cwd@),
{
    detailed(
        cat("Command denied by user approval: ", command),
        false,
        refusal_members("approval_denied", tool_name, command, cwd).object(),
    )
}

/// A command that the policy denies never runs, whatever a user would say.
pub proof fn denied_commands_never_run(
    tool_name: Seq<char>,
    command: Seq<char>,
    cwd: Seq<char>,
    policy: ApprovalPolicy,
    has_channel: bool,
)
    ensures
        approval(tool_name, command, cwd, Decision::Deny, policy, has_channel) is Refused,
        approval(tool_name, command, cwd, Decision::Ask, policy, has_channel) !is Granted,
{
}

/// What the policy and the user say of a command.
#[derive(Debug, Clone, Copy, PartialEq, Eq, Structural)]
pub struct Consent {
    pub decision: Decision,
    /// Whether there is a way to ask a user.
    pub can_ask: bool,
    /// Whether the user who was asked agreed.
    pub agreed: bool,
}

/// Whether a command may run.
pub open spec fn granted(consent: Consent, policy: ApprovalPolicy) -> bool {
    match consent.decision {
        Decision::Allow => true,
        Decision::Deny => false,
        Decision::Ask => policy == ApprovalPolicy::Ask && consent.can_ask && consent.agreed,
    }
}

/// The answer to a command that may not run.
pub open spec fn consent_refusal(
    tool_name: Seq<char>,
    command: Seq<char>,
    cwd: Seq<char>,
    consent: Consent,
    policy: ApprovalPolicy,
) -> Option<ToolResultView> {
    match approval(tool_name, command, cwd, consent.decision, policy, consent.can_ask) {
        ApprovalView::Granted => None,
        ApprovalView::Refused(answer) => Some(answer),
        ApprovalView::Prompt { .. } => if consent.agreed {
            None
        } else {
            Some(user_denied(tool_name, command, cwd))
        },
    }
}

/// A command is answered in place of being run exactly where it may not run.
pub proof fn refused_commands_are_those_not_granted(
    tool_name: Seq<char>,
    command: Seq<char>,
    cwd: Seq<char>,
    consent: Consent,
    policy: ApprovalPolicy,
)
    ensures
        consent_refusal(tool_name, command, cwd, consent, policy) is None <==> granted(
            consent,
            policy,
        ),
{
}

fn refuse_without_consent(
    tool_name: &str,
    command: &str,
    cwd: &str,
    consent: Consent,
    policy: ApprovalPolicy,
) -> (r: Option<ToolResult>)
    ensures
        (match r {
            Some(a) => Some(a@),
            None => None,
        }) == consent_refusal(tool_name@, command@, cwd@, consent, policy),
{
    match request_command_approval(
        tool_name,
        command,
        cwd,
        consent.decision,
        policy,
        consent.can_ask,
    ) {
        Approval::Granted => None,
        Approval::Refused(answer) => Some(answer),
        Approval::Prompt { .. } => if consent.agreed {
            None
        } else {
            Some(denied_by_user(tool_name, command, cwd))
        },
    }
}

/// What is done about shell commands that look like they write files.
#[derive(Debug, Clone, Copy, PartialEq, Eq, Structural)]
pub enum BashFileWrites {
    Allow,
    Warn,
    Deny,
}

impl Default for BashFileWrites {
    /// They are allowed.
    fn default() -> (r: BashFileWrites)
        ensures
            r == BashFileWrites::Allow,
    {
        BashFileWrites::Allow
    }
}

/// What is known of a command before it runs.
#[derive(Debug)]
pub struct CommandFacts {
    /// Whether the command looks like it writes files.
    pub looks_like_write: bool,
    /// Whether the command says that it may.
    pub allows_write: bool,
    /// Why the sandbox cannot be honoured, where it cannot.
    pub sandbox_refusal: Option<String>,
    /// The home directory.
    pub home: Option<String>,
    /// Whether paths are those of Windows.
    pub windows: bool,
}

/// A command that may run.
#[derive(Debug)]
pub struct CommandPlan {
    pub command: String,
    pub cwd: String,
    pub timeout_secs: u64,
    /// Where its receipt looks for changed files.
    pub snapshot_root: String,
    pub scope: ReceiptScope,
}

/// What a [`CommandPlan`] stands for.
pub struct PlanView {
    pub command: Seq<char>,
    pub cwd: Seq<char>,
    pub timeout_secs: u64,
    pub snapshot_root: Seq<char>,
    pub scope: ReceiptScope,
}

impl View for CommandPlan {
    type V = PlanView;

    open spec fn view(&self) -> PlanView {
        PlanView {
            command: self.command@,
            cwd: self.cwd@,
            timeout_secs: self.timeout_secs,
            snapshot_root: self.snapshot_root@,
            scope: self.scope,
        }
    }
}

/// The answer to a command that looks like it writes files where it may not.
pub open spec fn write_refused(command: Seq<char>) -> ToolResultView {
    tool::plain_view(
        "Command refused by tool_policy.bash_file_writes=deny (it looks like a file-writing shell command). Use the edit_file / diff_edit tools for code changes instead. If this refusal is a false positive, append the comment `# octos:allow-write` to the command line to run it explicitly. Command: "@
            + command,
        false,
    )
}

/// Whether a command runs, and how: one that looks like it writes files is refused where that
/// is denied, and none runs without a sandbox that can be honoured.
pub open spec fn planned(
    command: Seq<char>,
    cwd: Seq<char>,
    timeout_secs: u64,
    writes: BashFileWrites,
    facts: CommandFacts,
) -> Result<PlanView, ToolResultView> {
    if writes == BashFileWrites::Deny && !facts.allows_write && facts.looks_like_write {
        Err(write_refused(command))
    } else {
        match facts.sandbox_refusal {
            Some(refusal) => Err(tool::plain_view(refusal@, false)),
            None => {
                let (root, scope) = scope_root(cwd, command, text::opt(facts.home), facts.windows);
                Ok(PlanView { command, cwd, timeout_secs, snapshot_root: root, scope })
            },
        }
    }
}

/// Whether a command runs, and how, once the policy and the user have spoken.
pub open spec fn planned_call(
    tool_name: Seq<char>,
    command: Seq<char>,
    cwd: Seq<char>,
    consent: Consent,
    policy: ApprovalPolicy,
    timeout_secs: u64,
    writes: BashFileWrites,
    facts: CommandFacts,
) -> Result<PlanView, ToolResultView> {
    match consent_refusal(tool_name, command, cwd, consent, policy) {
        Some(answer) => Err(answer),
        None => planned(command, cwd, timeout_secs, writes, facts),
    }
}

/// A command that may not run is never planned, and one that is planned runs as it was asked for,
/// where it was asked for.
pub proof fn only_granted_commands_are_planned(
    tool_name: Seq<char>,
    command: Seq<char>,
    cwd: Seq<char>,
    consent: Consent,
    policy: ApprovalPolicy,
    timeout_secs: u64,
    writes: BashFileWrites,
    facts: CommandFacts,
)
    ensures
        planned_call(tool_name, command, cwd, consent, policy, timeout_secs, writes, facts) matches Ok(
            plan,
        ) ==> granted(consent, policy) && plan.command == command && plan.cwd == cwd,
{
}

/// Whether a command runs, and how.
fn plan_command(
    command: String,
    cwd: String,
    timeout_secs: u64,
    writes: BashFileWrites,
    facts: &CommandFacts,
) -> (r: Result<CommandPlan, ToolResult>)
    ensures
        (match r {
            Ok(p) => Ok(p@),
            Err(a) => Err(a@),
        }) == planned(command@, cwd@, timeout_secs, writes, *facts),
{
    if writes == BashFileWrites::Deny && !facts.allows_write && facts.looks_like_write {
        return Err(
            plain_failure(
                cat(
                    "Command refused by tool_policy.bash_file_writes=deny (it looks like a file-writing shell command). Use the edit_file / diff_edit tools for code changes instead. If this refusal is a false positive, append the comment `# octos:allow-write` to the command line to run it explicitly. Command: ",
                    &command,
                ),
            ),
        );
    }
    if let Some(refusal) = &facts.sandbox_refusal {
        return Err(plain_failure(refusal.clone()));
    }
    let (snapshot_root, scope) = receipt_scope_root(&cwd, &command, &facts.home, facts.windows);
    Ok(CommandPlan { command, cwd, timeout_secs, snapshot_root, scope })
}

/// A number between two bounds.
pub open spec fn clamped(n: int, low: int, high: int) -> int {
    if n < low {
        low
    } else if n > high {
        high
    } else {
        n
    }
}

/// How long `exec_command` lets a command run, in seconds.
pub open spec fn exec_timeout(given: Option<u64>) -> int {
    clamped(
        match given {
            Some(s) => s as int,
            None => DEFAULT_EXEC_TIMEOUT_SECS as int,
        },
        1,
        MAX_EXEC_TIMEOUT_SECS as int,
    )
}

/// How long `bash` lets a command run, in seconds: milliseconds are rounded up.
pub open spec fn bash_timeout(given_ms: Option<u64>) -> int {
    clamped(
        match given_ms {
            Some(ms) => (ms + 999) / 1000,
            None => DEFAULT_BASH_TIMEOUT_SECS as int,
        },
        1,
        MAX_BASH_TIMEOUT_SECS as int,
    )
}

/// How long `exec_command` lets a command run, in seconds.
pub fn exec_timeout_secs(given: Option<u64>) -> (r: u64)
    ensures
        r == exec_timeout(given),
{
    let n: u64 = match given {
        Some(s) => s,
        None => DEFAULT_EXEC_TIMEOUT_SECS,
    };
    if n < 1 {
        1
    } else if n > MAX_EXEC_TIMEOUT_SECS {
        MAX_EXEC_TIMEOUT_SECS
    } else {
        n
    }
}

/// How long `bash` lets a command run, in seconds.
pub fn bash_timeout_secs(given_ms: Option<u64>) -> (r: u64)
    ensures
        r == bash_timeout(given_ms),
{
    let n: u64 = match given_ms {
        Some(ms) => {
            if ms % 1000 == 0 {
                ms / 1000
            } else {
                ms / 1000 + 1
            }
        },
        None => DEFAULT_BASH_TIMEOUT_SECS,
    };
    if n < 1 {
        1
    } else if n > MAX_BASH_TIMEOUT_SECS {
        MAX_BASH_TIMEOUT_SECS
    } else {
        n
    }
}

/// What a command that ran to its end left.
#[derive(Debug)]
pub struct CommandOutput {
    pub stdout: Vec<u8>,
    pub stderr: Vec<u8>,
    /// The exit code, where the command was not killed by a signal.
    pub code: Option<i32>,
    pub success: bool,
    /// The receipt of the files that changed, where there is one.
    pub receipt: Option<String>,
}

/// The exit code of a command; -1 where it has none.
pub open spec fn exit_code(code: Option<i32>) -> int {
    match code {
        Some(c) => c as int,
        None => -1,
    }
}

/// The two streams of a command as one text.
pub open spec fn streams_text(stdout: Seq<u8>, stderr: Seq<u8>) -> Seq<char> {
    let out = bytes::lossy(stdout);
    let both = if stderr.len() > 0 {
        if out.len() > 0 {
            out + "\n--- stderr ---\n"@ + bytes::lossy(stderr)
        } else {
            bytes::lossy(stderr)
        }
    } else {
        out
    };
    if both.len() > 0 {
        both
    } else {
        "(no output)"@
    }
}

/// Whether a receipt says that files changed.
pub open spec fn says_changed(receipt: Seq<char>) -> bool {
    !text::ends(text::trim_end_view(receipt), "files_changed: 0"@)
}

/// What stands below the output of a command: its exit code, the receipt and where it looked,
/// and a note where files changed and that is to be warned of.
pub open spec fn notice_view(
    code: Option<i32>,
    receipt: Option<Seq<char>>,
    scope: ReceiptScope,
    writes: BashFileWrites,
) -> Seq<char> {
    let exit = "\n\nExit code: "@ + text::signed(exit_code(code));
    match receipt {
        None => exit,
        Some(receipt) => {
            let tail = exit + receipt + "\nscope: "@ + scope_view(scope);
            if writes == BashFileWrites::Warn && says_changed(receipt) {
                tail
                    + "\nnote: prefer the edit_file / diff_edit tools for code changes (tool_policy.bash_file_writes=warn)"@
            } else {
                tail
            }
        },
    }
}

/// The two streams of a command as one text.
fn join_streams(stdout: &Vec<u8>, stderr: &Vec<u8>) -> (r: String)
    ensures
        r@ == streams_text(stdout@, stderr@),
        text::starts(r@, bytes::lossy(stdout@)),
        stderr@.len() > 0 ==> text::ends(r@, bytes::lossy(stderr@)),
{
    proof {
        commands::both_streams_are_shown(stdout@, stderr@);
    }
    let mut both = from_utf8_lossy(stdout.as_slice());
    let ghost out = both@;
    if stderr.len() > 0 {
        if !both.as_str().is_empty() {
            both.append("\n--- stderr ---\n");
            both.append(&from_utf8_lossy(stderr.as_slice()));
        } else {
            both = from_utf8_lossy(stderr.as_slice());
        }
    }
    if both.as_str().is_empty() {
        "(no output)".to_owned()
    } else {
        both
    }
}

/// What stands below the output of a command.
fn notice(
    code: Option<i32>,
    receipt: &Option<String>,
    scope: ReceiptScope,
    writes: BashFileWrites,
) -> (r: String)
    ensures
        r@ == notice_view(code, text::opt(*receipt), scope, writes),
{
    let c: i32 = match code {
        Some(c) => c,
        None => -1,
    };
    let mut out = cat("\n\nExit code: ", &signed_string(c as i64));
    if let Some(receipt) = receipt {
        out.append(receipt);
        out.append("\nscope: ");
        out.append(scope.as_str());
        let quiet = ends_with(&trim_end(receipt), "files_changed: 0");
        if writes == BashFileWrites::Warn && !quiet {
            out.append(
                "\nnote: prefer the edit_file / diff_edit tools for code changes (tool_policy.bash_file_writes=warn)",
            );
        }
    }
    out
}

/// What is shown of a command that ran to its end, and what goes with a recovered copy of its
/// output: the notice, and the explanation of a denied access.
#[derive(Debug)]
pub struct CommandReport {
    pub output: String,
    pub notice: String,
    pub hint: Option<&'static str>,
}

/// What is shown of a command that ran to its end.
pub open spec fn shown(
    stdout: Seq<u8>,
    stderr: Seq<u8>,
    notice: Seq<char>,
    sandboxed: bool,
    macos: bool,
    success: bool,
    cap: nat,
) -> Seq<char> {
    explained(streams_text(stdout, stderr) + notice, sandboxed, macos, success, cap)
}

/// Puts together what is shown of a command that ran to its end.
fn report_command(
    output: &CommandOutput,
    scope: ReceiptScope,
    writes: BashFileWrites,
    sandboxed: bool,
    macos: bool,
    cap: usize,
) -> (r: CommandReport)
    ensures
        r.notice@ == notice_view(output.code, text::opt(output.receipt), scope, writes),
        r.output@ == shown(
            output.stdout@,
            output.stderr@,
            r.notice@,
            sandboxed,
            macos,
            output.success,
            cap as nat,
        ),
        (match r.hint {
            Some(h) => Some(h@),
            None => None,
        }) == hint_for(
            streams_text(output.stdout@, output.stderr@) + r.notice@,
            sandboxed,
            macos,
            output.success,
        ),
{
    let below = notice(output.code, &output.receipt, scope, writes);
    let whole = cat(&join_streams(&output.stdout, &output.stderr), &below);
    let hint = sandbox_denial_hint(sandboxed, macos, output.success, &whole);
    let shown = explain(&whole, sandboxed, macos, output.success, cap);
    CommandReport { output: shown, notice: below, hint }
}

/// The answer to a command that could not be started or waited for.
pub fn launch_failure(error: &str) -> (r: ToolResult)
    ensures
        r@ == tool::plain_view("Failed to execute command: "@ + error@, false),
{
    plain_failure(cat("Failed to execute command: ", error))
}

/// The answer to a command that ran out of time.
pub fn timed_out(timeout_secs: u64) -> (r: ToolResult)
    ensures
        r@ == tool::plain_view(
            "Command timed out after "@ + text::dec(timeout_secs as nat) + " seconds"@,
            false,
        ),
{
    plain_failure(
        cat3("Command timed out after ", &dec_string(timeout_secs as u128), " seconds"),
    )
}

/// The tool that runs a command, to its end or as a session.
pub struct ExecCommandTool {
    pub bash_file_writes: BashFileWrites,
    pub base_dir: String,
    pub filesystem_scope: FilesystemScope,
    /// The policy that decides on commands, by name.
    pub policy: String,
    pub approval_policy: ApprovalPolicy,
    /// Whether commands run in a sandbox.
    pub sandboxed: bool,
    /// Whether the sandbox is that of macOS.
    pub macos: bool,
}

/// The tool that runs a command to its end.
pub struct BashTool {
    pub base_dir: String,
    pub filesystem_scope: FilesystemScope,
    /// The policy that decides on commands, by name.
    pub policy: String,
    pub approval_policy: ApprovalPolicy,
    /// Whether commands run in a sandbox.
    pub sandboxed: bool,
    /// Whether the sandbox is that of macOS.
    pub macos: bool,
    pub bash_file_writes: BashFileWrites,
}

/// The tool that writes to a session.
pub struct WriteStdinTool;

/// The command that a call asks for, and where it is to run.
pub open spec fn call_view(
    missing: Seq<char>,
    base_dir: Seq<char>,
    cmd: Option<Seq<char>>,
    command: Option<Seq<char>>,
    workdir: Option<Seq<char>>,
    found: Option<Seq<char>>,
) -> Result<(Seq<char>, Seq<char>), ToolResultView> {
    let wanted = match cmd {
        Some(c) => Some(c),
        None => command,
    };
    match wanted {
        None => Err(tool::plain_view(missing, false)),
        Some(c) => match working_directory(base_dir, workdir, found) {
            Ok(cwd) => Ok((c, cwd)),
            Err(e) => Err(tool::plain_view(e, false)),
        },
    }
}

/// The view of a call or of the answer that stands in its place.
pub open spec fn call_or_answer(r: Result<(String, String), ToolResult>) -> Result<
    (Seq<char>, Seq<char>),
    ToolResultView,
> {
    match r {
        Ok((a, b)) => Ok((a@, b@)),
        Err(t) => Err(t@),
    }
}

/// The command that a call asks for, and where it is to run.
fn read_call(
    missing: &str,
    base_dir: &str,
    cmd: Option<&String>,
    command: Option<&String>,
    workdir: Option<&String>,
    found: &Option<String>,
) -> (r: Result<(String, String), ToolResult>)
    ensures
        call_or_answer(r) == call_view(
            missing@,
            base_dir@,
            json::opt_ref(cmd),
            json::opt_ref(command),
            json::opt_ref(workdir),
            text::opt(*found),
        ),
{
    let wanted = match cmd {
        Some(c) => c,
        None => match command {
            Some(c) => c,
            None => {
                return Err(plain_failure(missing.to_owned()));
            },
        },
    };
    match resolve_optional_workdir(base_dir, workdir, found) {
        Ok(cwd) => Ok((wanted.clone(), cwd)),
        Err(e) => Err(plain_failure(e)),
    }
}

/// Whether a call asks for a session.
pub open spec fn wants_session(tty: Option<bool>, yield_time_ms: Option<u64>) -> bool {
    tty == Some(true) || yield_time_ms is Some
}

/// What a session tells of itself.
pub open spec fn session_view(
    session_id: Seq<char>,
    code: Option<i32>,
    output: Seq<char>,
    sandboxed: bool,
    macos: bool,
    cap: nat,
) -> ToolResultView {
    tool::plain_view(
        codec::json_text(
            JsonView::Object(
                seq![
                    ("session_id"@, JsonView::Text(session_id)),
                    ("running"@, JsonView::Bool(code is None)),
                    (
                        "exit_code"@,
                        match code {
                            Some(c) => JsonView::Int(c as int),
                            None => JsonView::Null,
                        },
                    ),
                    (
                        "output"@,
                        JsonView::Text(session_output(output, code, sandboxed, macos, cap)),
                    ),
                ],
            ),
        ),
        true,
    )
}

/// The cap that a call sets on output, or the default one.
pub open spec fn output_cap(max_output_tokens: Option<usize>) -> nat {
    match max_output_tokens {
        Some(n) => n as nat,
        None => MAX_CAPTURE_BYTES as nat,
    }
}

/// What a session tells of itself.
pub fn session_answer(
    session_id: &str,
    code: Option<i32>,
    output: &str,
    sandboxed: bool,
    macos: bool,
    max_output_tokens: Option<usize>,
) -> (r: ToolResult)
    ensures
        r@ == session_view(
            session_id@,
            code,
            output@,
            sandboxed,
            macos,
            output_cap(max_output_tokens),
        ),
{
    let cap: usize = match max_output_tokens {
        Some(n) => n,
        None => MAX_CAPTURE_BYTES,
    };
    let code_json = match code {
        Some(c) => Json::Negative(c as i64),
        None => Json::Null,
    };
    let f = Fields::new().with("session_id", text_json(session_id)).with(
        "running",
        Json::Bool(code.is_none()),
    ).with("exit_code", code_json).with(
        "output",
        Json::Text(session_output_payload(output, code, sandboxed, macos, cap)),
    );
    assert(f@ =~= seq![
        ("session_id"@, JsonView::Text(session_id@)),
        ("running"@, JsonView::Bool(code is None)),
        (
            "exit_code"@,
            match code {
                Some(c) => JsonView::Int(c as int),
                None => JsonView::Null,
            },
        ),
        (
            "output"@,
            JsonView::Text(session_output(output@, code, sandboxed, macos, cap as nat)),
        ),
    ]);
    ToolResult {
        output: render_json(&f.object()),
        success: true,
        file_modified: None,
        structured_metadata: None,
    }
}

impl ExecCommandTool {
    /// A tool for the workspace at `base_dir`, with the safe policy, in a sandbox or not.
    pub fn new(base_dir: &str, sandboxed: bool, macos: bool) -> (r: Self)
        ensures
            r.base_dir@ == base_dir@,
            r.sandboxed == sandboxed,
            r.macos == macos,
            r.filesystem_scope == FilesystemScope::Workspace,
            r.policy@ == "safe_policy"@,
            r.approval_policy == ApprovalPolicy::Ask,
            r.bash_file_writes == BashFileWrites::Allow,
    {
        ExecCommandTool {
            bash_file_writes: BashFileWrites::Allow,
            base_dir: base_dir.to_owned(),
            filesystem_scope: FilesystemScope::Workspace,
            policy: "safe_policy".to_owned(),
            approval_policy: ApprovalPolicy::Ask,
            sandboxed,
            macos,
        }
    }

    /// The tool with another stance on commands that look like they write files.
    pub fn with_bash_file_writes(self, mode: BashFileWrites) -> (r: Self)
        ensures
            r == (ExecCommandTool { bash_file_writes: mode, ..self }),
    {
        ExecCommandTool { bash_file_writes: mode, ..self }
    }

    /// The tool with another reach.
    pub fn with_filesystem_scope(self, filesystem_scope: FilesystemScope) -> (r: Self)
        ensures
            r == (ExecCommandTool { filesystem_scope, ..self }),
    {
        ExecCommandTool { filesystem_scope, ..self }
    }

    /// The tool with another policy.
    pub fn with_policy(self, policy: String) -> (r: Self)
        ensures
            r == (ExecCommandTool { policy, ..self }),
    {
        ExecCommandTool { policy, ..self }
    }

    /// The tool with another stance on asking a user.
    pub fn with_approval_policy(self, approval_policy: ApprovalPolicy) -> (r: Self)
        ensures
            r == (ExecCommandTool { approval_policy, ..self }),
    {
        ExecCommandTool { approval_policy, ..self }
    }

    /// The name under which a model calls the tool.
    pub fn name(&self) -> (r: &'static str)
        ensures
            r@ == "exec_command"@,
    {
        "exec_command"
    }

    /// Calls never run side by side.
    pub fn concurrency_class(&self) -> (r: ConcurrencyClass)
        ensures
            r == ConcurrencyClass::Exclusive,
    {
        ConcurrencyClass::Exclusive
    }

    /// The command that a call asks for, and where it is to run.
    pub fn read_call(
        &self,
        cmd: Option<&String>,
        command: Option<&String>,
        workdir: Option<&String>,
        found: &Option<String>,
    ) -> (r: Result<(String, String), ToolResult>)
        ensures
            call_or_answer(r) == call_view(
                "exec_command requires cmd"@,
                self.base_dir@,
                json::opt_ref(cmd),
                json::opt_ref(command),
                json::opt_ref(workdir),
                text::opt(*found),
            ),
    {
        read_call("exec_command requires cmd", &self.base_dir, cmd, command, workdir, found)
    }

    /// Whether a call asks for a session.
    pub fn is_session(&self, tty: Option<bool>, yield_time_ms: Option<u64>) -> (r: bool)
        ensures
            r == wants_session(tty, yield_time_ms),
    {
        (match tty {
            Some(t) => t,
            None => false,
        }) || yield_time_ms.is_some()
    }

    /// The answer to a command that may not run in a session, for want of a grant or of a sandbox
    /// that can be honoured; none where it may.
    pub fn refuse_session(
        &self,
        command: &str,
        cwd: &str,
        consent: Consent,
        sandbox_refusal: Option<String>,
    ) -> (r: Option<ToolResult>)
        ensures
            (match r {
                Some(a) => Some(a@),
                None => None,
            }) == (match consent_refusal(
                "exec_command"@,
                command@,
                cwd@,
                consent,
                self.approval_policy,
            ) {
                Some(answer) => Some(answer),
                None => match sandbox_refusal {
                    Some(refusal) => Some(tool::plain_view(refusal@, false)),
                    None => None,
                },
            }),
    {
        match refuse_without_consent(
            self.name(),
            command,
            cwd,
            consent,
            self.approval_policy,
        ) {
            Some(answer) => Some(answer),
            None => match sandbox_refusal {
                Some(refusal) => Some(plain_failure(refusal)),
                None => None,
            },
        }
    }

    /// Whether a command runs to its end, and how.
    pub fn plan(
        &self,
        command: String,
        cwd: String,
        consent: Consent,
        timeout_secs: Option<u64>,
        facts: &CommandFacts,
    ) -> (r: Result<CommandPlan, ToolResult>)
        ensures
            (match r {
                Ok(p) => Ok(p@),
                Err(a) => Err(a@),
            }) == planned_call(
                "exec_command"@,
                command@,
                cwd@,
                consent,
                self.approval_policy,
                exec_timeout(timeout_secs) as u64,
                self.bash_file_writes,
                *facts,
            ),
    {
        if let Some(answer) = refuse_without_consent(
            self.name(),
            &command,
            &cwd,
            consent,
            self.approval_policy,
        ) {
            return Err(answer);
        }
        plan_command(command, cwd, exec_timeout_secs(timeout_secs), self.bash_file_writes, facts)
    }

    /// The answer to a command that ran to its end, and what goes with a recovered copy of its
    /// output.
    pub fn finish(
        &self,
        plan: &CommandPlan,
        output: &CommandOutput,
        max_output_tokens: Option<usize>,
    ) -> (r: (ToolResult, CommandReport))
        ensures
            r.1.notice@ == notice_view(
                output.code,
                text::opt(output.receipt),
                plan.scope,
                self.bash_file_writes,
            ),
            r.0@ == tool::plain_view(
                shown(
                    output.stdout@,
                    output.stderr@,
                    r.1.notice@,
                    self.sandboxed,
                    self.macos,
                    output.success,
                    output_cap(max_output_tokens),
                ),
                output.success,
            ),
            r.1.output@ == r.0@.output,
            (match r.1.hint {
                Some(h) => Some(h@),
                None => None,
            }) == hint_for(
                streams_text(output.stdout@, output.stderr@) + r.1.notice@,
                self.sandboxed,
                self.macos,
                output.success,
            ),
            bytes::byte_len(bytes::lossy(output.stdout@)) <= output_cap(max_output_tokens)
                ==> text::starts(r.0@.output, bytes::lossy(output.stdout@)),
            r.0@.success == output.success,
    {
        let cap: usize = match max_output_tokens {
            Some(n) => n,
            None => MAX_CAPTURE_BYTES,
        };
        proof {
            commands::finished_commands_show_what_they_wrote(
                output.stdout@,
                output.stderr@,
                notice_view(
                    output.code,
                    text::opt(output.receipt),
                    plan.scope,
                    self.bash_file_writes,
                ),
                self.sandboxed,
                self.macos,
                output.success,
                cap as nat,
            );
        }
        let report = report_command(
            output,
            plan.scope,
            self.bash_file_writes,
            self.sandboxed,
            self.macos,
            cap,
        );
        (
            ToolResult {
                output: report.output.clone(),
                success: output.success,
                file_modified: None,
                structured_metadata: None,
            },
            report,
        )
    }
}

/// The metadata of a command that `bash` ran to its end.
pub open spec fn bash_metadata(code: Option<i32>) -> JsonView {
    JsonView::Object(
        seq![
            ("codex_tool"@, JsonView::Text("bash"@)),
            ("octos_tool"@, JsonView::Text("exec_command"@)),
            ("exit_code"@, JsonView::Int(exit_code(code))),
        ],
    )
}

impl BashTool {
    /// A tool for the workspace at `base_dir`, with the safe policy, in a sandbox or not.
    pub fn new(base_dir: &str, sandboxed: bool, macos: bool) -> (r: Self)
        ensures
            r.base_dir@ == base_dir@,
            r.sandboxed == sandboxed,
            r.macos == macos,
            r.filesystem_scope == FilesystemScope::Workspace,
            r.policy@ == "safe_policy"@,
            r.approval_policy == ApprovalPolicy::Ask,
            r.bash_file_writes == BashFileWrites::Allow,
    {
        BashTool {
            base_dir: base_dir.to_owned(),
            filesystem_scope: FilesystemScope::Workspace,
            policy: "safe_policy".to_owned(),
            approval_policy: ApprovalPolicy::Ask,
            sandboxed,
            macos,
            bash_file_writes: BashFileWrites::Allow,
        }
    }

    /// The tool with another stance on commands that look like they write files.
    pub fn with_bash_file_writes(self, mode: BashFileWrites) -> (r: Self)
        ensures
            r == (BashTool { bash_file_writes: mode, ..self }),
    {
        BashTool { bash_file_writes: mode, ..self }
    }

    /// The tool with another reach.
    pub fn with_filesystem_scope(self, filesystem_scope: FilesystemScope) -> (r: Self)
        ensures
            r == (BashTool { filesystem_scope, ..self }),
    {
        BashTool { filesystem_scope, ..self }
    }

    /// The tool with another policy.
    pub fn with_policy(self, policy: String) -> (r: Self)
        ensures
            r == (BashTool { policy, ..self }),
    {
        BashTool { policy, ..self }
    }

    /// The tool with another stance on asking a user.
    pub fn with_approval_policy(self, approval_policy: ApprovalPolicy) -> (r: Self)
        ensures
            r == (BashTool { approval_policy, ..self }),
    {
        BashTool { approval_policy, ..self }
    }

    /// The name under which a model calls the tool.
    pub fn name(&self) -> (r: &'static str)
        ensures
            r@ == "bash"@,
    {
        "bash"
    }

    /// Calls never run side by side.
    pub fn concurrency_class(&self) -> (r: ConcurrencyClass)
        ensures
            r == ConcurrencyClass::Exclusive,
    {
        ConcurrencyClass::Exclusive
    }

    /// The command that a call asks for, and where it is to run.
    pub fn read_call(
        &self,
        cmd: Option<&String>,
        command: Option<&String>,
        workdir: Option<&String>,
        found: &Option<String>,
    ) -> (r: Result<(String, String), ToolResult>)
        ensures
            call_or_answer(r) == call_view(
                "bash requires `cmd`"@,
                self.base_dir@,
                json::opt_ref(cmd),
                json::opt_ref(command),
                json::opt_ref(workdir),
                text::opt(*found),
            ),
    {
        read_call("bash requires `cmd`", &self.base_dir, cmd, command, workdir, found)
    }

    /// Whether a command runs, and how.
    pub fn plan(
        &self,
        command: String,
        cwd: String,
        consent: Consent,
        timeout_ms: Option<u64>,
        facts: &CommandFacts,
    ) -> (r: Result<CommandPlan, ToolResult>)
        ensures
            (match r {
                Ok(p) => Ok(p@),
                Err(a) => Err(a@),
            }) == planned_call(
                "bash"@,
                command@,
                cwd@,
                consent,
                self.approval_policy,
                bash_timeout(timeout_ms) as u64,
                self.bash_file_writes,
                *facts,
            ),
    {
        if let Some(answer) = refuse_without_consent(
            self.name(),
            &command,
            &cwd,
            consent,
            self.approval_policy,
        ) {
            return Err(answer);
        }
        plan_command(command, cwd, bash_timeout_secs(timeout_ms), self.bash_file_writes, facts)
    }

    /// The answer to a command that ran to its end, and what goes with a recovered copy of its
    /// output.
    pub fn finish(&self, plan: &CommandPlan, output: &CommandOutput) -> (r: (
        ToolResult,
        CommandReport,
    ))
        ensures
            r.1.notice@ == notice_view(
                output.code,
                text::opt(output.receipt),
                plan.scope,
                self.bash_file_writes,
            ),
            r.0@ == tool::detailed_view(
                shown(
                    output.stdout@,
                    output.stderr@,
                    r.1.notice@,
                    self.sandboxed,
                    self.macos,
                    output.success,
                    MAX_CAPTURE_BYTES as nat,
                ),
                output.success,
                bash_metadata(output.code),
            ),
            r.1.output@ == r.0@.output,
            (match r.1.hint {
                Some(h) => Some(h@),
                None => None,
            }) == hint_for(
                streams_text(output.stdout@, output.stderr@) + r.1.notice@,
                self.sandboxed,
                self.macos,
                output.success,
            ),
            bytes::byte_len(bytes::lossy(output.stdout@)) <= 50_000 ==> text::starts(
                r.0@.output,
                bytes::lossy(output.stdout@),
            ),
            r.0@.success == output.success,
    {
        let report = report_command(
            output,
            plan.scope,
            self.bash_file_writes,
            self.sandboxed,
            self.macos,
            MAX_CAPTURE_BYTES,
        );
        proof {
            commands::finished_commands_show_what_they_wrote(
                output.stdout@,
                output.stderr@,
                report.notice@,
                self.sandboxed,
                self.macos,
                output.success,
                50_000,
            );
        }
        let c: i32 = match output.code {
            Some(c) => c,
            None => -1,
        };
        let f = Fields::new().with("codex_tool", text_json("bash")).with(
            "octos_tool",
            text_json("exec_command"),
        ).with("exit_code", Json::Negative(c as i64));
        assert(f@ =~= bash_metadata(output.code)->Object_0);
        (detailed(report.output.clone(), output.success, f.object()), report)
    }
}

impl WriteStdinTool {
    /// The name under which a model calls the tool.
    pub fn name(&self) -> (r: &'static str)
        ensures
            r@ == "write_stdin"@,
    {
        "write_stdin"
    }

    /// Whether a call can be served: the session is known, and its input is open where
    /// something is to be written.
    pub fn refuse(
        &self,
        session_id: &str,
        known: bool,
        writes: bool,
        stdin_open: bool,
    ) -> (r: Option<ToolResult>)
        ensures
            (match r {
                Some(a) => Some(a@),
                None => None,
            }) == (if !known {
                Some(tool::plain_view("unknown exec session: "@ + session_id@, false))
            } else if writes && !stdin_open {
                Some(
                    tool::plain_view(
                        "exec session "@ + session_id@ + " has no open stdin"@,
                        false,
                    ),
                )
            } else {
                None
            }),
    {
        if !known {
            Some(plain_failure(cat("unknown exec session: ", session_id)))
        } else if writes && !stdin_open {
            Some(plain_failure(cat3("exec session ", session_id, " has no open stdin")))
        } else {
            None
        }
    }
}

/// Where shell writes are denied, no command that looks like one and does not say that it may
/// is ever started.
pub proof fn denied_writes_never_start(
    command: Seq<char>,
    cwd: Seq<char>,
    timeout_secs: u64,
    facts: CommandFacts,
)
    requires
        facts.looks_like_write,
        !facts.allows_write,
    ensures
        planned(command, cwd, timeout_secs, BashFileWrites::Deny, facts) == Err::<
            PlanView,
            ToolResultView,
        >(write_refused(command)),
{
}

/// Where shell writes are allowed, nothing of that stance shows in what stands below a
/// command's output; where they are warned of, a note comes exactly with a receipt of changed
/// files.
pub proof fn warnings_come_with_changes_only(
    code: Option<i32>,
    receipt: Option<Seq<char>>,
    scope: ReceiptScope,
)
    ensures
        receipt is None || !says_changed(receipt->0) ==> notice_view(
            code,
            receipt,
            scope,
            BashFileWrites::Warn,
        ) == notice_view(code, receipt, scope, BashFileWrites::Allow),
        receipt is Some && says_changed(receipt->0) ==> notice_view(
            code,
            receipt,
            scope,
            BashFileWrites::Warn,
        ) == notice_view(code, receipt, scope, BashFileWrites::Allow)
            + "\nnote: prefer the edit_file / diff_edit tools for code changes (tool_policy.bash_file_writes=warn)"@,
{
}

} // verus!
