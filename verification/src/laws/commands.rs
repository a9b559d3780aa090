//! What is shown of a command, how long it may run, and which command runs where.

use vstd::prelude::*;

use crate::bytes;
use crate::codec;
use crate::command;
use crate::command::{
    ApprovalPolicy, ApprovalView, BashFileWrites, CommandFacts, Consent, Decision, ReceiptScope,
};
use crate::json::JsonView;
use crate::laws::checks;
use crate::laws::envelopes;
use crate::laws::texts;
use crate::paths;
use crate::text;

verus! {

/// The text of a command's streams holds both of them: it begins with what the command wrote, and
/// ends with what it wrote of errors; between the two stands the mark of errors, where both wrote.
/// A command that wrote nothing is said to have written nothing.
pub proof fn both_streams_are_shown(stdout: Seq<u8>, stderr: Seq<u8>)
    ensures
        ({
            let out = bytes::lossy(stdout);
            let err = bytes::lossy(stderr);
            let all = command::streams_text(stdout, stderr);
            &&& text::starts(all, out)
            &&& stderr.len() > 0 ==> text::ends(all, err)
            &&& stderr.len() > 0 && out.len() > 0 ==> all.len() == out.len()
                + "\n--- stderr ---\n"@.len() + err.len() && text::stands_at(
                all,
                "\n--- stderr ---\n"@,
                out.len() as int,
            )
            &&& stderr.len() > 0 && out.len() == 0 && err.len() > 0 ==> all == err
            &&& stderr.len() == 0 && out.len() > 0 ==> all == out
            &&& stdout.len() == 0 && stderr.len() == 0 ==> all == "(no output)"@
        }),
{
    let out = bytes::lossy(stdout);
    let err = bytes::lossy(stderr);
    let all = command::streams_text(stdout, stderr);
    let mark = "\n--- stderr ---\n"@;
    reveal_strlit("\n--- stderr ---\n");
    assert(all.subrange(0, out.len() as int) =~= out);
    if stderr.len() > 0 {
        assert(all.subrange(all.len() - err.len(), all.len() as int) =~= err);
        if out.len() > 0 {
            assert(all.subrange(out.len() as int, out.len() + mark.len() as int) =~= mark);
        }
    }
    if stdout.len() == 0 && stderr.len() == 0 {
        assert(stdout =~= Seq::<u8>::empty());
        lemma_no_bytes(stdout);
    }
}

proof fn lemma_no_bytes(b: Seq<u8>)
    requires
        b.len() == 0,
    ensures
        bytes::lossy(b).len() == 0,
{
}

/// Bytes that are valid UTF-8 are shown as the text that they encode.
pub proof fn valid_output_is_shown_as_it_is(s: Seq<char>)
    ensures
        bytes::lossy(vstd::utf8::encode_utf8(s)) == s,
{
    vstd::utf8::encode_utf8_valid_utf8(s);
    vstd::utf8::encode_utf8_decode_utf8(s);
}

/// Output that fits is shown whole; of other output as long a beginning is kept as fits, and the
/// reader is told. At least 256 bytes are always kept.
pub proof fn long_output_keeps_its_beginning(output: Seq<char>, max: nat)
    ensures
        ({
            let cap: nat = if max < 256 {
                256
            } else {
                max
            };
            let shown = command::capped(output, max);
            &&& bytes::byte_len(output) <= cap ==> shown == output
            &&& bytes::byte_len(output) > cap ==> exists|n: int|
                {
                    &&& 0 <= n < output.len()
                    &&& shown == #[trigger] output.take(n) + "\n... (output truncated)"@
                    &&& bytes::byte_len(output.take(n)) <= cap
                    &&& bytes::byte_len(output.take(n + 1)) > cap
                }
        }),
{
    let cap: nat = if max < 256 {
        256
    } else {
        max
    };
    bytes::head_is_longest(output, cap);
    if bytes::byte_len(output) > cap {
        let n = bytes::head(output, cap).len() as int;
        if n == output.len() {
            assert(output.take(n) =~= output);
        }
        assert(command::capped(output, max) == output.take(n) + "\n... (output truncated)"@);
    }
}

proof fn lemma_beginning_is_kept(whole: Seq<char>, front: Seq<char>, cap: nat)
    requires
        text::starts(whole, front),
        bytes::byte_len(front) <= cap,
    ensures
        text::starts(command::capped(whole, cap), front),
{
    long_output_keeps_its_beginning(whole, cap);
    let n = front.len() as int;
    let shown = command::capped(whole, cap);
    assert(whole.take(n) =~= front);
    if shown != whole {
        let m = choose|m: int|
            0 <= m < whole.len() && shown == #[trigger] whole.take(m) + "\n... (output truncated)"@
                && bytes::byte_len(whole.take(m)) <= (if cap < 256 {
                256
            } else {
                cap
            }) && bytes::byte_len(whole.take(m + 1)) > (if cap < 256 {
                256
            } else {
                cap
            });
        if m < n {
            lemma_shorter(whole, m + 1, n);
        }
        assert(shown.subrange(0, n) =~= front);
    }
}

proof fn lemma_shorter(s: Seq<char>, m: int, n: int)
    requires
        0 <= m <= n <= s.len(),
    ensures
        bytes::byte_len(s.take(m)) <= bytes::byte_len(s.take(n)),
{
    assert(s.take(n) =~= s.take(m) + s.subrange(m, n));
    bytes::lemma_byte_len_concat(s.take(m), s.subrange(m, n));
}

/// What is shown of a finished command begins with what it wrote, as far as that fits, and where
/// all of it fits, what stands below it, its exit code first, comes right behind its streams. An
/// explanation of a denied access stands at the end, whatever was cut.
pub proof fn finished_commands_show_what_they_wrote(
    stdout: Seq<u8>,
    stderr: Seq<u8>,
    notice: Seq<char>,
    sandboxed: bool,
    macos: bool,
    success: bool,
    cap: nat,
)
    ensures
        ({
            let shown = command::shown(stdout, stderr, notice, sandboxed, macos, success, cap);
            let whole = command::streams_text(stdout, stderr) + notice;
            let hint = command::hint_for(whole, sandboxed, macos, success);
            &&& bytes::byte_len(bytes::lossy(stdout)) <= cap ==> text::starts(
                shown,
                bytes::lossy(stdout),
            )
            &&& bytes::byte_len(whole) <= cap ==> text::starts(shown, whole)
            &&& bytes::byte_len(whole) <= cap && hint is None ==> shown == whole
            &&& bytes::byte_len(whole) <= cap && stderr.len() > 0 ==> text::has(
                shown,
                bytes::lossy(stderr) + notice,
            )
            &&& hint matches Some(h) ==> text::ends(shown, h)
        }),
{
    let out = bytes::lossy(stdout);
    let shown = command::shown(stdout, stderr, notice, sandboxed, macos, success, cap);
    let whole = command::streams_text(stdout, stderr) + notice;
    let cut = command::capped(whole, cap);
    let hint = command::hint_for(whole, sandboxed, macos, success);
    both_streams_are_shown(stdout, stderr);
    let all = command::streams_text(stdout, stderr);
    assert(all.subrange(0, out.len() as int) == out);
    assert(whole.subrange(0, out.len() as int) =~= out);
    if bytes::byte_len(out) <= cap {
        lemma_beginning_is_kept(whole, out, cap);
        assert(cut.subrange(0, out.len() as int) == out);
        assert(shown.subrange(0, out.len() as int) =~= out);
    }
    long_output_keeps_its_beginning(whole, cap);
    if bytes::byte_len(whole) <= cap {
        assert(shown.subrange(0, whole.len() as int) =~= whole);
        if stderr.len() > 0 {
            let err = bytes::lossy(stderr);
            let end = err + notice;
            let at = all.len() - err.len();
            assert(all.subrange(at, all.len() as int) == err);
            assert forall|k: int| 0 <= k < err.len() implies shown[at + k] == err[k] by {
                assert(all.subrange(at, all.len() as int)[k] == all[at + k]);
            }
            assert(shown.subrange(at, at + end.len()) =~= end);
            assert(text::stands_at(shown, end, at));
        }
    }
    if let Some(h) = hint {
        assert(shown.subrange(shown.len() - h.len(), shown.len() as int) =~= h);
    }
}

/// What stands below the output of a command begins with its exit code, or with minus one where it
/// has none; a receipt and where it looked follow, word for word.
pub proof fn notices_begin_with_the_exit_code(
    code: Option<i32>,
    receipt: Option<Seq<char>>,
    scope: ReceiptScope,
    writes: BashFileWrites,
)
    ensures
        ({
            let said = command::notice_view(code, receipt, scope, writes);
            &&& code is Some && code->0 >= 0 ==> text::starts(
                said,
                "\n\nExit code: "@ + text::dec(code->0 as nat),
            )
            &&& code is Some && code->0 < 0 ==> text::starts(
                said,
                "\n\nExit code: -"@ + text::dec((-(code->0)) as nat),
            )
            &&& code is None ==> text::starts(said, "\n\nExit code: -1"@)
            &&& receipt is None && code is Some && code->0 >= 0 ==> said
                == "\n\nExit code: "@ + text::dec(code->0 as nat)
            &&& receipt matches Some(r) ==> text::has(said, r)
            &&& receipt is Some && scope == ReceiptScope::Workdir ==> text::has(
                said,
                "\nscope: workdir"@,
            )
            &&& receipt is Some && scope == ReceiptScope::CdTarget ==> text::has(
                said,
                "\nscope: cd-target"@,
            )
            &&& receipt is Some && writes != BashFileWrites::Warn && scope == ReceiptScope::Workdir
                ==> text::ends(said, receipt->0 + "\nscope: workdir"@)
        }),
{
    let said = command::notice_view(code, receipt, scope, writes);
    let exit = "\n\nExit code: "@ + text::signed(command::exit_code(code));
    assert(said.subrange(0, exit.len() as int) =~= exit);
    if let Some(c) = code {
        if c < 0 {
            reveal_strlit("\n\nExit code: -");
            reveal_strlit("\n\nExit code: ");
            reveal_strlit("-");
            assert("\n\nExit code: -"@ + text::dec((-c) as nat) =~= exit);
        }
    } else {
        reveal_strlit("\n\nExit code: -1");
        reveal_strlit("\n\nExit code: ");
        reveal_strlit("-");
        reveal_with_fuel(text::dec, 2);
        assert(text::dec(1) =~= seq!['1']);
        assert("\n\nExit code: -1"@ =~= exit);
    }
    if let Some(r) = receipt {
        let mark = "\nscope: "@ + command::scope_view(scope);
        assert(said.subrange(exit.len() as int, exit.len() + r.len() as int) =~= r);
        assert(text::stands_at(said, r, exit.len() as int));
        let at = (exit.len() + r.len()) as int;
        assert(said.subrange(at, at + mark.len()) =~= mark);
        assert(text::stands_at(said, mark, at));
        reveal_strlit("\nscope: ");
        reveal_strlit("workdir");
        reveal_strlit("cd-target");
        reveal_strlit("\nscope: workdir");
        reveal_strlit("\nscope: cd-target");
        if scope == ReceiptScope::Workdir {
            assert(mark =~= "\nscope: workdir"@);
        } else {
            assert(mark =~= "\nscope: cd-target"@);
        }
        if writes != BashFileWrites::Warn && scope == ReceiptScope::Workdir {
            let end = r + "\nscope: workdir"@;
            assert(said =~= exit + end);
            assert(said.subrange(said.len() - end.len(), said.len() as int) =~= end);
        }
    }
}

/// A failed command in a sandbox is explained exactly where its output holds one of the phrases of
/// a denied access; no other command is. Only on macOS the explanation names the setting that
/// opens the caches of toolchains.
pub proof fn denials_alone_are_explained(
    output: Seq<char>,
    sandboxed: bool,
    macos: bool,
    success: bool,
)
    ensures
        ({
            let hint = command::hint_for(output, sandboxed, macos, success);
            &&& hint is Some <==> sandboxed && !success && (text::has(
                output,
                "Operation not permitted"@,
            ) || text::has(output, "Permission denied"@) || text::has(
                output,
                "Read-only file system"@,
            ))
            &&& hint matches Some(h) ==> text::starts(h, "\n\n[sandbox]"@)
            &&& macos && hint is Some ==> text::has(hint->0, "allow_toolchains"@)
            &&& !macos && hint is Some ==> !text::has(hint->0, "allow_toolchains"@)
        }),
{
    if let Some(h) = command::hint_for(output, sandboxed, macos, success) {
        reveal_strlit("\n\n[sandbox]");
        reveal_strlit("allow_toolchains");
        if macos {
            reveal_strlit(
                "\n\n[sandbox] The command ran inside the sandbox and the kernel denied an access it needs. Paths outside the workspace are not available to it: work inside the workspace, or ask for broader permissions. Toolchain caches such as ~/.rustup and ~/.cargo are opened by `sandbox.allow_toolchains`.",
            );
            assert(h.subrange(0, "\n\n[sandbox]"@.len() as int) =~= "\n\n[sandbox]"@);
            let n = "allow_toolchains"@.len();
            let at = h.len() - 2 - n;
            assert(h.subrange(at, at + n) =~= "allow_toolchains"@);
            assert(text::stands_at(h, "allow_toolchains"@, at));
        } else {
            reveal_strlit(
                "\n\n[sandbox] The command ran inside the sandbox and the kernel denied an access it needs. Paths outside the workspace are not available to it: work inside the workspace, or ask for broader permissions.",
            );
            assert(h.subrange(0, "\n\n[sandbox]"@.len() as int) =~= "\n\n[sandbox]"@);
            if text::has(h, "allow_toolchains"@) {
                let i = choose|i: int| text::stands_at(h, "allow_toolchains"@, i);
                let part = h.subrange(i, i + "allow_toolchains"@.len());
                assert(part[5] == '_');
                assert(h[i + 5] == '_');
                assert(forall|k: int| 0 <= k < h.len() ==> h[k] != '_');
            }
        }
    }
}

/// A session that runs is never explained, nor one that ended well; its output is cut like any
/// other.
pub proof fn running_sessions_are_not_explained(
    output: Seq<char>,
    sandboxed: bool,
    macos: bool,
    cap: nat,
)
    ensures
        command::session_output(output, None, sandboxed, macos, cap) == command::capped(output, cap),
        command::session_output(output, Some(0i32), sandboxed, macos, cap) == command::capped(
            output,
            cap,
        ),
        command::session_output(output, Some(1i32), false, macos, cap) == command::capped(
            output,
            cap,
        ),
{
}

/// A command may run as long as it asks, but for at least a second and at most ten minutes; two
/// minutes where it does not say. Milliseconds are rounded up.
pub proof fn timeouts_are_kept_in_bounds(secs: u64, ms: u64)
    ensures
        command::exec_timeout(None) == 120,
        command::bash_timeout(None) == 120,
        1 <= secs <= 600 ==> command::exec_timeout(Some(secs)) == secs,
        secs == 0 ==> command::exec_timeout(Some(secs)) == 1,
        secs > 600 ==> command::exec_timeout(Some(secs)) == 600,
        1 <= ms <= 600_000 ==> ({
            let r = command::bash_timeout(Some(ms));
            1000 * (r - 1) < ms <= 1000 * r
        }),
        ms == 0 ==> command::bash_timeout(Some(ms)) == 1,
        ms > 600_000 ==> command::bash_timeout(Some(ms)) == 600,
{
}

/// A call runs the command that `cmd` names, or else `command`, in the base directory or in the one
/// that it asks for; without a command, or where the directory is out of reach, it is refused.
pub proof fn calls_name_a_command_and_a_place(
    missing: Seq<char>,
    base: Seq<char>,
    cmd: Option<Seq<char>>,
    other: Option<Seq<char>>,
    workdir: Option<Seq<char>>,
    found: Option<Seq<char>>,
)
    ensures
        ({
            let call = command::call_view(missing, base, cmd, other, workdir, found);
            &&& cmd is None && other is None ==> (call matches Err(a) && !a.success && a.output
                == missing)
            &&& call matches Ok((c, cwd)) ==> {
                &&& cmd matches Some(x) ==> c == x
                &&& cmd is None ==> other == Some(c)
                &&& workdir is None ==> cwd == base
                &&& workdir matches Some(w) ==> cwd == (if text::trim_view(w).len() == 0 {
                    base
                } else {
                    found->0
                })
            }
            &&& (cmd is Some || other is Some) && (workdir is None || text::trim_view(
                workdir->0,
            ).len() == 0 || found is Some) ==> call is Ok
            &&& workdir is Some && text::trim_view(workdir->0).len() > 0 && found is None
                ==> (call matches Err(a) && !a.success)
        }),
{
}

/// A command that the policy denies is refused whoever agrees; one that it allows needs nobody; one
/// that it wants asked runs only where asking is wanted and possible and the user agrees. Every
/// refusal is a failure that names the command.
pub proof fn consent_decides(
    tool: Seq<char>,
    cmd: Seq<char>,
    cwd: Seq<char>,
    consent: Consent,
    policy: ApprovalPolicy,
)
    ensures
        ({
            let refusal = command::consent_refusal(tool, cmd, cwd, consent, policy);
            &&& consent.decision == Decision::Allow ==> refusal is None
            &&& consent.decision == Decision::Deny ==> refusal is Some
            &&& consent.decision == Decision::Ask ==> (refusal is None <==> policy
                == ApprovalPolicy::Ask && consent.can_ask && consent.agreed)
            &&& refusal matches Some(a) ==> !a.success && text::has(a.output, cmd)
                && a.file_modified is None
        }),
{
    if let Some(a) = command::consent_refusal(tool, cmd, cwd, consent, policy) {
        let out = a.output;
        match consent.decision {
            Decision::Deny => {
                let p = "Command denied by security policy: "@;
                text::lemma_has_itself(cmd);
                text::lemma_has_within(
                    p,
                    cmd,
                    "\n\nThis command was blocked because it matches a dangerous pattern."@,
                    cmd,
                );
            },
            _ => {
                text::lemma_has_itself(cmd);
                let none = Seq::<char>::empty();
                if policy == ApprovalPolicy::Never {
                    let p = "Command requires approval but approval_policy is never: "@;
                    text::lemma_has_within(p, cmd, none, cmd);
                    assert(p + cmd + none =~= out);
                } else if !consent.can_ask {
                    let p = "Command requires approval and was denied: "@;
                    text::lemma_has_within(
                        p,
                        cmd,
                        "\n\nNo interactive approval channel is available."@,
                        cmd,
                    );
                } else {
                    let p = "Command denied by user approval: "@;
                    text::lemma_has_within(p, cmd, none, cmd);
                    assert(p + cmd + none =~= out);
                }
            },
        }
    }
}

/// A command that may run is planned as it stands, unless it looks like a write where writes are
/// denied, or its sandbox cannot be honoured: then it is refused, with the sandbox's own words.
pub proof fn plans_keep_the_command(
    cmd: Seq<char>,
    cwd: Seq<char>,
    secs: u64,
    writes: BashFileWrites,
    facts: CommandFacts,
)
    ensures
        ({
            let plan = command::planned(cmd, cwd, secs, writes, facts);
            let write = writes == BashFileWrites::Deny && facts.looks_like_write
                && !facts.allows_write;
            &&& plan is Ok <==> !write && facts.sandbox_refusal is None
            &&& plan matches Ok(p) ==> p.command == cmd && p.cwd == cwd && p.timeout_secs == secs
            &&& plan matches Err(a) ==> !a.success
            &&& !write && facts.sandbox_refusal is Some ==> (plan matches Err(a) && a.output
                == facts.sandbox_refusal->0@)
        }),
{
}

pub proof fn lemma_first_at(s: Seq<char>, p: Seq<char>, i: int, at: int)
    requires
        0 <= i <= at <= s.len(),
        text::stands_at(s, p, at),
        forall|k: int| i <= k < at ==> !#[trigger] text::stands_at(s, p, k),
    ensures
        text::first_from(s, p, i) == Some(at),
    decreases at - i,
{
    if i < at {
        lemma_first_at(s, p, i + 1, at);
    }
}

/// A command that begins with `cd`, one plain word and `&&` looks for its changes in the directory
/// of that word, taken below the working directory; in the home directory where the word is `~`.
pub proof fn leading_cd_sets_the_scope(
    workdir: Seq<char>,
    dir: Seq<char>,
    rest: Seq<char>,
    home: Option<Seq<char>>,
    windows: bool,
)
    requires
        dir.len() > 0,
        texts::solid(dir),
        forall|i: int|
            0 <= i < dir.len() ==> {
                let c = #[trigger] dir[i];
                c != '$' && c != '`' && c != '\\' && c != ';' && c != '&' && c != '\'' && c != '"'
            },
        dir[0] != '-',
    ensures
        ({
            let cmd = "cd "@ + dir + " && "@ + rest;
            let (root, scope) = command::scope_root(workdir, cmd, home, windows);
            &&& dir[0] != '~' ==> root == paths::joined(workdir, dir, windows) && scope
                == ReceiptScope::CdTarget
            &&& dir == "~"@ && home is Some ==> root == paths::joined(workdir, home->0, windows)
                && scope == ReceiptScope::CdTarget
            &&& dir == "~"@ && home is None ==> root == workdir && scope == ReceiptScope::Workdir
        }),
{
    reveal_strlit("cd ");
    reveal_strlit(" && ");
    reveal_strlit("&&");
    reveal_strlit("-");
    reveal_strlit("~");
    reveal_strlit("~/");
    let cmd = "cd "@ + dir + " && "@ + rest;
    assert(cmd[0] == 'c');
    assert(text::trim_start_view(cmd) == cmd);
    let tail = dir + " && "@ + rest;
    assert(cmd =~= "cd "@ + tail);
    envelopes::lemma_prefixed("cd "@, tail);
    let at = (dir.len() + 1) as int;
    assert(tail.subrange(at, at + 2) =~= "&&"@);
    assert forall|k: int| 0 <= k < at implies !#[trigger] text::stands_at(tail, "&&"@, k) by {
        if text::stands_at(tail, "&&"@, k) {
            assert(tail.subrange(k, k + 2)[0] == tail[k]);
            if k < dir.len() {
                assert(tail[k] == dir[k]);
            } else {
                assert(tail[k] == ' ');
            }
        }
    }
    lemma_first_at(tail, "&&"@, 0, at);
    let front = tail.take(at);
    assert(front =~= Seq::<char>::empty() + dir + seq![' ']);
    assert(!text::white(dir[0]) && !text::white(dir[dir.len() - 1]));
    texts::trimming_takes_white_space_alone(Seq::empty(), dir, seq![' ']);
    assert(text::trim_view(front) == dir);
    assert(command::unquoted(dir) == dir) by {
        assert(dir[0] != '\'' && dir[0] != '"');
    }
    assert(!dir.contains(';')) by {
        if dir.contains(';') {
            let i = choose|i: int| 0 <= i < dir.len() && dir[i] == ';';
            assert(dir[i] == ';');
        }
    }
    assert(!dir.contains('$')) by {
        if dir.contains('$') {
            let i = choose|i: int| 0 <= i < dir.len() && dir[i] == '$';
            assert(dir[i] == '$');
        }
    }
    assert(!dir.contains('`')) by {
        if dir.contains('`') {
            let i = choose|i: int| 0 <= i < dir.len() && dir[i] == '`';
            assert(dir[i] == '`');
        }
    }
    assert(!dir.contains('\\')) by {
        if dir.contains('\\') {
            let i = choose|i: int| 0 <= i < dir.len() && dir[i] == '\\';
            assert(dir[i] == '\\');
        }
    }
    envelopes::lemma_starts_first(dir, "-"@);
    envelopes::lemma_starts_first(dir, "~/"@);
    assert(command::is_literal(dir));
    assert(command::cd_target(cmd) == Some(dir));
}

proof fn lemma_cd(word: Seq<char>, rest: Seq<char>)
    requires
        word.len() > 0,
        !text::white(word[0]),
        !text::white(word.last()),
        forall|i: int| 0 <= i < word.len() ==> #[trigger] word[i] != '&',
    ensures
        ({
            let cmd = "cd "@ + word + " && "@ + rest;
            let t = command::unquoted(word);
            command::cd_target(cmd) == (if word.contains(';') || !command::is_literal(t) {
                None
            } else {
                Some(t)
            })
        }),
{
    reveal_strlit("cd ");
    reveal_strlit(" && ");
    reveal_strlit("&&");
    let cmd = "cd "@ + word + " && "@ + rest;
    assert(cmd[0] == 'c');
    assert(text::trim_start_view(cmd) == cmd);
    let tail = word + " && "@ + rest;
    assert(cmd =~= "cd "@ + tail);
    envelopes::lemma_prefixed("cd "@, tail);
    let at = (word.len() + 1) as int;
    assert(tail.subrange(at, at + 2) =~= "&&"@);
    assert forall|k: int| 0 <= k < at implies !#[trigger] text::stands_at(tail, "&&"@, k) by {
        if text::stands_at(tail, "&&"@, k) {
            assert(tail.subrange(k, k + 2)[0] == tail[k]);
            if k < word.len() {
                assert(tail[k] == word[k]);
            } else {
                assert(tail[k] == ' ');
            }
        }
    }
    lemma_first_at(tail, "&&"@, 0, at);
    let front = tail.take(at);
    assert(front =~= Seq::empty() + word + seq![' ']);
    texts::trimming_takes_white_space_alone(Seq::empty(), word, seq![' ']);
}

/// Quotes around the directory of a leading `cd` are not part of it, and a tilde and a slash before
/// it stand for the home directory. A directory with a variable, a command or a blank in it, one that
/// is followed by another command, and an option are not looked into.
pub proof fn quoted_and_home_directories_are_entered(
    workdir: Seq<char>,
    dir: Seq<char>,
    rest: Seq<char>,
    home: Seq<char>,
    windows: bool,
    i: int,
)
    requires
        dir.len() > 0,
        texts::solid(dir),
        forall|k: int|
            0 <= k < dir.len() ==> {
                let c = #[trigger] dir[k];
                c != '&' && c != '\'' && c != '"' && c != '\\'
            },
        dir[0] != '~' && dir[0] != '-',
    ensures
        ({
            let plain = forall|k: int|
                0 <= k < dir.len() ==> {
                    let c = #[trigger] dir[k];
                    c != '$' && c != '`' && c != ';'
                };
            let quoted = "cd "@ + (seq!['"'] + dir + seq!['"']) + " && "@ + rest;
            let single = "cd "@ + (seq!['\''] + dir + seq!['\'']) + " && "@ + rest;
            let below = "cd "@ + ("~/"@ + dir) + " && "@ + rest;
            &&& plain ==> command::scope_root(workdir, quoted, Some(home), windows) == (
                paths::joined(workdir, dir, windows),
                ReceiptScope::CdTarget,
            )
            &&& plain ==> command::scope_root(workdir, single, Some(home), windows) == (
                paths::joined(workdir, dir, windows),
                ReceiptScope::CdTarget,
            )
            &&& plain ==> command::scope_root(workdir, below, Some(home), windows) == (
                paths::joined(workdir, paths::joined(home, dir, windows), windows),
                ReceiptScope::CdTarget,
            )
            &&& 0 <= i < dir.len() && (dir[i] == '$' || dir[i] == '`' || dir[i] == ';')
                ==> command::scope_root(
                workdir,
                "cd "@ + dir + " && "@ + rest,
                Some(home),
                windows,
            ) == (workdir, ReceiptScope::Workdir)
            &&& command::scope_root(
                workdir,
                "cd "@ + ("-"@ + dir) + " && "@ + rest,
                Some(home),
                windows,
            ) == (workdir, ReceiptScope::Workdir)
        }),
{
    reveal_strlit("-");
    reveal_strlit("~");
    reveal_strlit("~/");
    let q = seq!['"'] + dir + seq!['"'];
    let s = seq!['\''] + dir + seq!['\''];
    let h = "~/"@ + dir;
    let o = "-"@ + dir;
    assert forall|k: int| 0 <= k < q.len() implies #[trigger] q[k] != '&' by {
        if 0 < k <= dir.len() {
            assert(q[k] == dir[k - 1]);
        }
    }
    assert forall|k: int| 0 <= k < s.len() implies #[trigger] s[k] != '&' by {
        if 0 < k <= dir.len() {
            assert(s[k] == dir[k - 1]);
        }
    }
    assert forall|k: int| 0 <= k < h.len() implies #[trigger] h[k] != '&' by {
        if k >= 2 {
            assert(h[k] == dir[k - 2]);
        }
    }
    assert forall|k: int| 0 <= k < o.len() implies #[trigger] o[k] != '&' by {
        if k >= 1 {
            assert(o[k] == dir[k - 1]);
        }
    }
    assert(!text::white(dir[0]) && !text::white(dir[dir.len() - 1]));
    assert(q.last() == '"' && s.last() == '\'' && h.last() == dir.last() && o.last() == dir.last());
    lemma_cd(q, rest);
    lemma_cd(s, rest);
    lemma_cd(h, rest);
    lemma_cd(o, rest);
    lemma_cd(dir, rest);
    assert(q.subrange(1, q.len() - 1) =~= dir);
    assert(s.subrange(1, s.len() - 1) =~= dir);
    assert(dir[0] != '"' && dir[0] != '\'');
    assert(command::unquoted(q) == dir && command::unquoted(s) == dir && command::unquoted(dir)
        == dir && command::unquoted(h) == h && command::unquoted(o) == o);
    envelopes::lemma_starts_first(dir, "-"@);
    envelopes::lemma_starts_first(h, "-"@);
    envelopes::lemma_prefixed("-"@, dir);
    envelopes::lemma_prefixed("~/"@, dir);
    envelopes::lemma_starts_first(dir, "~/"@);
    assert(dir[0] != '~' ==> dir != "~"@);
    assert(h.len() > 1 && h != "~"@);
    assert(!text::has_white(dir)) by {
        if text::has_white(dir) {
            let k = choose|k: int| 0 <= k < dir.len() && text::white(#[trigger] dir[k]);
            assert(!text::white(dir[k]));
        }
    }
    assert(!text::has_white(h)) by {
        if text::has_white(h) {
            let k = choose|k: int| 0 <= k < h.len() && text::white(#[trigger] h[k]);
            if k >= 2 {
                assert(h[k] == dir[k - 2]);
            }
        }
    }
    if forall|k: int|
        0 <= k < dir.len() ==> {
            let c = #[trigger] dir[k];
            c != '$' && c != '`' && c != ';'
        } {
        lemma_holds_none(dir, '$');
        lemma_holds_none(dir, '`');
        lemma_holds_none(dir, ';');
        lemma_holds_none(dir, '\\');
        assert forall|k: int| 0 <= k < q.len() implies #[trigger] q[k] != ';' by {
            if 0 < k <= dir.len() {
                assert(q[k] == dir[k - 1]);
            }
        }
        assert forall|k: int| 0 <= k < s.len() implies #[trigger] s[k] != ';' by {
            if 0 < k <= dir.len() {
                assert(s[k] == dir[k - 1]);
            }
        }
        assert forall|k: int| 0 <= k < h.len() implies {
            let c = #[trigger] h[k];
            c != '$' && c != '`' && c != ';' && c != '\\'
        } by {
            if k >= 2 {
                assert(h[k] == dir[k - 2]);
            }
        }
        lemma_holds_none(q, ';');
        lemma_holds_none(s, ';');
        lemma_holds_none(h, '$');
        lemma_holds_none(h, '`');
        lemma_holds_none(h, ';');
        lemma_holds_none(h, '\\');
    }
    if 0 <= i < dir.len() && (dir[i] == '$' || dir[i] == '`' || dir[i] == ';') {
        assert(dir.contains(dir[i]));
    }
}

proof fn lemma_holds_none(s: Seq<char>, c: char)
    requires
        forall|k: int| 0 <= k < s.len() ==> #[trigger] s[k] != c,
    ensures
        !s.contains(c),
{
}

/// A command that does not begin with `cd`, or has no `&&`, looks for its changes in the working
/// directory; so does one whose directory is not one plain word.
pub proof fn other_commands_keep_the_working_directory(
    workdir: Seq<char>,
    cmd: Seq<char>,
    home: Option<Seq<char>>,
    windows: bool,
)
    requires
        !text::starts(text::trim_start_view(cmd), "cd "@) || (forall|i: int|
            !#[trigger] text::stands_at(cmd, "&&"@, i)),
    ensures
        command::scope_root(workdir, cmd, home, windows) == (workdir, ReceiptScope::Workdir),
{
    reveal_strlit("&&");
    if text::starts(text::trim_start_view(cmd), "cd "@) {
        let t = text::trim_start_view(cmd);
        let rest = text::after_prefix(t, "cd "@)->0;
        if text::first_position(rest, "&&"@) is Some {
            lemma_first_stands(rest, "&&"@, 0);
            let i = text::first_position(rest, "&&"@)->0;
            lemma_start_is_tail(cmd);
            let n = cmd.len() - t.len();
            let at = n + "cd "@.len() + i;
            assert(t == cmd.skip(n));
            assert(rest.subrange(i, i + 2) == "&&"@);
            assert(cmd.subrange(at, at + 2) =~= rest.subrange(i, i + 2));
            assert(text::stands_at(cmd, "&&"@, at));
        }
    }
}

pub proof fn lemma_first_stands(s: Seq<char>, p: Seq<char>, i: int)
    ensures
        text::first_from(s, p, i) matches Some(k) ==> text::stands_at(s, p, k) && i <= k,
    decreases s.len() + 1 - i,
{
    if 0 <= i <= s.len() && !text::stands_at(s, p, i) {
        lemma_first_stands(s, p, i + 1);
    }
}

proof fn lemma_start_is_tail(s: Seq<char>)
    ensures
        text::trim_start_view(s).len() <= s.len(),
        text::trim_start_view(s) == s.skip(s.len() - text::trim_start_view(s).len()),
    decreases s.len(),
{
    if s.len() > 0 && text::white(s[0]) {
        lemma_start_is_tail(s.drop_first());
        let t = text::trim_start_view(s);
        assert(s.drop_first().skip(s.len() - 1 - t.len()) =~= s.skip(s.len() - t.len()));
    } else {
        assert(s.skip(0) =~= s);
    }
}

/// A text with a piece behind it, and the mark of errors between them where the piece is one.
pub open spec fn taken_in(text: Seq<char>, piece: Seq<char>, is_stderr: bool) -> Seq<char> {
    if is_stderr && piece.len() > 0 {
        text + "\n--- stderr ---\n"@ + piece
    } else {
        text + piece
    }
}

/// What a session reads is kept in order, errors behind their mark, until twice fifty thousand bytes
/// are passed; then as long an end as fits into fifty thousand is kept, and the reader is told.
pub proof fn captures_keep_their_end(buffer: Seq<char>, chunk: Seq<u8>, is_stderr: bool)
    ensures
        ({
            let piece = bytes::lossy(chunk);
            let all = taken_in(buffer, piece, is_stderr);
            let now = command::captured(buffer, chunk, is_stderr);
            &&& bytes::byte_len(all) <= 100_000 ==> now == all
            &&& bytes::byte_len(all) > 100_000 ==> exists|n: int|
                {
                    &&& 0 < n <= all.len()
                    &&& now == "... (earlier output truncated)\n"@ + #[trigger] all.skip(n)
                    &&& bytes::byte_len(all.skip(n)) <= 50_000
                    &&& bytes::byte_len(all.skip(n - 1)) > 50_000
                }
        }),
{
    let piece = bytes::lossy(chunk);
    let all = taken_in(buffer, piece, is_stderr);
    let now = command::captured(buffer, chunk, is_stderr);
    assert(buffer + Seq::<char>::empty() =~= buffer);
    assert(now == command::trimmed_capture(all));
    if bytes::byte_len(all) > 100_000 {
        bytes::tail_is_longest(all, 50_000);
        let n = all.len() - bytes::tail(all, 50_000).len();
        assert(all.skip(0) =~= all);
        assert(n > 0);
        assert(bytes::tail(all, 50_000) == all.skip(n));
        assert(bytes::byte_len(all.skip(n - 1)) > 50_000);
        assert(now == "... (earlier output truncated)\n"@ + all.skip(n));
    } else {
        assert(now == all);
    }
}

/// A session is one where a terminal or a waiting time is asked for.
pub proof fn sessions_are_asked_for(tty: Option<bool>, wait: Option<u64>)
    ensures
        command::wants_session(Some(true), wait),
        wait is Some ==> command::wants_session(tty, wait),
        !command::wants_session(None, None),
        !command::wants_session(Some(false), None),
{
}

/// A session tells its id, whether it still runs, its exit code once it does not, and its output:
/// whole where it fits and nothing is to be explained.
pub proof fn sessions_tell_of_themselves(
    id: Seq<char>,
    code: Option<i32>,
    output: Seq<char>,
    sandboxed: bool,
    macos: bool,
    cap: nat,
)
    ensures
        ({
            let r = command::session_view(id, code, output, sandboxed, macos, cap);
            &&& r.success
            &&& exists|body: JsonView|
                {
                    &&& r.output == #[trigger] codec::json_text(body)
                    &&& checks::holds(body, "session_id"@, JsonView::Text(id))
                    &&& code is None ==> checks::holds(body, "running"@, JsonView::Bool(true))
                        && checks::holds(body, "exit_code"@, JsonView::Null)
                    &&& code is Some ==> checks::holds(body, "running"@, JsonView::Bool(false))
                        && checks::holds(body, "exit_code"@, JsonView::Int(code->0 as int))
                    &&& bytes::byte_len(output) <= cap && (code is None || code == Some(0i32)
                        || !sandboxed) ==> checks::holds(body, "output"@, JsonView::Text(output))
                }
        }),
        command::output_cap(None) == 50_000,
        forall|n: usize| #[trigger] command::output_cap(Some(n)) == n,
{
    let f = seq![
        ("session_id"@, JsonView::Text(id)),
        ("running"@, JsonView::Bool(code is None)),
        (
            "exit_code"@,
            match code {
                Some(c) => JsonView::Int(c as int),
                None => JsonView::Null,
            },
        ),
        (
            "output"@,
            JsonView::Text(command::session_output(output, code, sandboxed, macos, cap)),
        ),
    ];
    let body = JsonView::Object(f);
    assert(f.contains(f[0]) && f.contains(f[1]) && f.contains(f[2]) && f.contains(f[3]));
    long_output_keeps_its_beginning(output, cap);
    assert(command::session_view(id, code, output, sandboxed, macos, cap).output
        == codec::json_text(body));
}

/// A refused command is told of with the tool, the command and the directory that it was meant for,
/// and with what refused it; a user who is asked is told the command.
pub proof fn refusals_tell_of_their_command(
    tool: Seq<char>,
    cmd: Seq<char>,
    cwd: Seq<char>,
    decision: Decision,
    policy: ApprovalPolicy,
    channel: bool,
)
    ensures
        ({
            let r = command::approval(tool, cmd, cwd, decision, policy, channel);
            &&& r matches ApprovalView::Refused(a) ==> !a.success && a.structured_metadata is Some
                && checks::holds(a.structured_metadata->0, "command"@, JsonView::Text(cmd))
                && checks::holds(a.structured_metadata->0, "cwd"@, JsonView::Text(cwd))
                && checks::holds(a.structured_metadata->0, "tool_name"@, JsonView::Text(tool))
            &&& r is Granted <==> decision == Decision::Allow
            &&& r is Prompt <==> decision == Decision::Ask && policy != ApprovalPolicy::Never
                && channel
            &&& r matches ApprovalView::Prompt { body, .. } ==> body == "Run command: "@ + cmd
            &&& decision == Decision::Deny ==> (r matches ApprovalView::Refused(a)
                && checks::holds(
                a.structured_metadata->0,
                "kind"@,
                JsonView::Text("command_policy_denied"@),
            ))
        }),
        ({
            let a = command::user_denied(tool, cmd, cwd);
            &&& !a.success
            &&& checks::holds(a.structured_metadata->0, "command"@, JsonView::Text(cmd))
            &&& checks::holds(a.structured_metadata->0, "kind"@, JsonView::Text("approval_denied"@))
        }),
{
    if let ApprovalView::Refused(a) = command::approval(tool, cmd, cwd, decision, policy, channel) {
        let f = (a.structured_metadata->0)->Object_0;
        assert(f[1] == ("tool_name"@, JsonView::Text(tool)));
        assert(f[2] == ("command"@, JsonView::Text(cmd)));
        assert(f[3] == ("cwd"@, JsonView::Text(cwd)));
        assert(f.contains(f[0]) && f.contains(f[1]) && f.contains(f[2]) && f.contains(f[3]));
        if decision == Decision::Deny {
            assert(f[0] == ("kind"@, JsonView::Text("command_policy_denied"@)));
        }
    }
    let g = (command::user_denied(tool, cmd, cwd).structured_metadata->0)->Object_0;
    assert(g[0] == ("kind"@, JsonView::Text("approval_denied"@)));
    assert(g[2] == ("command"@, JsonView::Text(cmd)));
    assert(g.contains(g[0]) && g.contains(g[2]));
}

/// A command is planned only where it is consented to; a refusal of the policy or of the user comes
/// before one of the sandbox.
pub proof fn only_commands_with_consent_are_planned(
    tool: Seq<char>,
    cmd: Seq<char>,
    cwd: Seq<char>,
    consent: Consent,
    policy: ApprovalPolicy,
    secs: u64,
    writes: BashFileWrites,
    facts: CommandFacts,
)
    ensures
        ({
            let r = command::planned_call(
                tool,
                cmd,
                cwd,
                consent,
                policy,
                secs,
                writes,
                facts,
            );
            &&& r is Ok ==> consent.decision != Decision::Deny
            &&& r is Ok && consent.decision == Decision::Ask ==> consent.agreed && consent.can_ask
                && policy == ApprovalPolicy::Ask
            &&& r matches Ok(p) ==> p.command == cmd && p.cwd == cwd && p.timeout_secs == secs
            &&& r matches Err(a) ==> !a.success
            &&& consent.decision == Decision::Allow && facts.sandbox_refusal is None && (writes
                != BashFileWrites::Deny || !facts.looks_like_write) ==> r is Ok
            &&& command::consent_refusal(tool, cmd, cwd, consent, policy) matches Some(a) ==> (
            r matches Err(b) && b == a)
        }),
{
    consent_decides(tool, cmd, cwd, consent, policy);
    plans_keep_the_command(cmd, cwd, secs, writes, facts);
}

/// The metadata of a finished command holds its exit code, minus one where it has none.
pub proof fn metadata_holds_the_exit_code(c: i32)
    ensures
        checks::holds(command::bash_metadata(Some(c)), "exit_code"@, JsonView::Int(c as int)),
        checks::holds(command::bash_metadata(None), "exit_code"@, JsonView::Int(-1)),
{
    let f = command::bash_metadata(Some(c))->Object_0;
    let g = command::bash_metadata(None)->Object_0;
    assert(f.contains(f[2]) && g.contains(g[2]));
}

} // verus!
