//! What is captured of a command's streams, what is said of it, and which processes it leaves.

use vstd::prelude::*;

use crate::bytes;
use crate::command_capture;
use crate::command_capture::{
    CaptureState, CapturedCommand, DrainView, ExecutionStatus, OutputStream, StreamView,
    Termination,
};
use crate::laws::places;
use crate::laws::texts;
use crate::processes;
use crate::text;

verus! {

/// The streams of a command are shown one behind the other: what it wrote comes first, what it wrote
/// of errors last, and where both wrote the mark of errors stands between them.
pub proof fn both_captured_streams_are_shown(out: Seq<char>, err: Seq<char>)
    ensures
        ({
            let all = command_capture::both_texts(out, err);
            &&& text::starts(all, out)
            &&& out.len() > 0 || err.len() > 0 ==> text::ends(all, err)
            &&& out.len() > 0 && err.len() > 0 ==> all == out + "\n--- stderr ---\n"@ + err
            &&& out.len() == 0 && err.len() > 0 ==> all == err
            &&& out.len() > 0 && err.len() == 0 ==> all == out
            &&& out.len() == 0 && err.len() == 0 ==> all == "(no output)"@
        }),
{
    let all = command_capture::both_texts(out, err);
    assert(all.subrange(0, out.len() as int) =~= out);
    if out.len() > 0 || err.len() > 0 {
        assert(all.subrange(all.len() - err.len(), all.len() as int) =~= err);
    }
}

/// Of a stream of which only the end can be held, the last bytes are held: as many as fit, and all
/// where they fit.
pub proof fn the_last_bytes_are_held(b: Seq<u8>, n: nat)
    ensures
        ({
            let kept = command_capture::last_bytes(b, n);
            &&& kept.len() <= n
            &&& b.len() <= n ==> kept == b
            &&& b.len() > n ==> kept.len() == n
            &&& exists|front: Seq<u8>| b == #[trigger] (front + kept)
        }),
{
    let kept = command_capture::last_bytes(b, n);
    let front = b.take(b.len() - kept.len());
    assert(b =~= front + kept);
}

/// A stream that was read to its end, within its limit, and of which the spool holds everything, is
/// shown as it was: nothing of it is said to be lost, limited, failed or transformed where it is
/// text.
pub proof fn whole_texts_are_captured(d: DrainView, s: Seq<char>)
    requires
        d.ended && d.spooling && !d.failed,
        d.bytes == vstd::utf8::encode_utf8(s),
        d.bytes.len() <= d.limit,
        d.bytes.len() <= u64::MAX,
    ensures
        ({
            let v = command_capture::captured_view(d, Some(d.bytes));
            &&& v.text == s
            &&& v.stream == d.stream
            &&& v.start == 0
            &&& v.total == Some(d.bytes.len() as u64)
            &&& !v.unrecoverable_tail && !v.limited && !v.failed && !v.transformed
        }),
{
    vstd::utf8::encode_utf8_valid_utf8(s);
    vstd::utf8::encode_utf8_decode_utf8(s);
    assert(command_capture::shown_bytes(d.bytes, d.bytes) == d.bytes);
}

/// A stream that goes past its limit is said to be limited, one that did not come to its end to have
/// lost its end, and one whose spool is lost to have failed.
pub proof fn losses_are_marked(d: DrainView, held: Option<Seq<u8>>)
    ensures
        ({
            let v = command_capture::captured_view(d, held);
            &&& d.bytes.len() > d.limit && d.limit < u64::MAX ==> v.limited
            &&& d.bytes.len() <= d.limit ==> !v.limited
            &&& !d.ended ==> v.unrecoverable_tail && v.total is None
            &&& d.failed ==> v.failed
            &&& d.spooling && held is None ==> v.failed
            &&& !vstd::utf8::valid_utf8(d.bytes) ==> v.transformed
            &&& d.ended && d.bytes.len() <= u64::MAX && bytes::byte_len(v.text) < d.bytes.len()
                ==> v.unrecoverable_tail
        }),
{
}

/// Of a stream whose spool is lost or empty, all is shown where it is no longer than what is held in
/// memory, and nothing where it is.
pub proof fn held_bytes_stand_in_for_the_spool(d: DrainView)
    requires
        d.bytes.len() > 0,
    ensures
        ({
            let v = command_capture::captured_view(d, None);
            &&& d.bytes.len() <= 32768 ==> v.text == bytes::lossy(d.bytes)
            &&& d.bytes.len() > 32768 ==> v.text == bytes::lossy(Seq::empty())
        }),
{
}

/// A spool takes the first bytes of a stream up to its limit, and no more.
pub proof fn spools_take_the_first_bytes(limit: nat, before: nat, n: nat)
    ensures
        ({
            let share = command_capture::spool_share(limit, before as int, n as int);
            &&& 0 <= share <= n
            &&& before + n <= limit ==> share == n
            &&& before >= limit ==> share == 0
            &&& before < limit < before + n ==> before + share == limit
        }),
{
}

/// What is known of a command's output holds both streams first, the output before the errors, each
/// with its own text; then a notice for each stream that lost its end.
pub proof fn documents_hold_both_streams(c: CapturedCommand)
    ensures
        ({
            let d = command_capture::document_view(c);
            let lost = if c.stdout.unrecoverable_tail {
                1int
            } else {
                0
            };
            &&& d.parts.len() >= 2
            &&& d.parts[0].text == c.stdout.text@ && d.parts[0].stream == c.stdout.stream
            &&& d.parts[0].total == c.stdout.total && d.parts[0].start == c.stdout.start
            &&& d.parts[1].text == c.stderr.text@ && d.parts[1].stream == c.stderr.stream
            &&& d.parts[1].total == c.stderr.total && d.parts[1].start == c.stderr.start
            &&& d.parts.len() == 2 + lost + (if c.stderr.unrecoverable_tail {
                1int
            } else {
                0
            })
            &&& c.stdout.unrecoverable_tail ==> d.parts[2].stream == OutputStream::Display
                && text::has(d.parts[2].text, "tail is not recoverable"@) && text::starts(
                d.parts[2].text,
                command_capture::stream_name(c.stdout.stream),
            )
            &&& c.stderr.unrecoverable_tail ==> d.parts[2 + lost].stream == OutputStream::Display
                && text::has(d.parts[2 + lost].text, "tail is not recoverable"@) && text::starts(
                d.parts[2 + lost].text,
                command_capture::stream_name(c.stderr.stream),
            )
            &&& d.transformed <==> c.stdout.transformed || c.stderr.transformed
        }),
{
    let (a, b) = (c.stdout@, c.stderr@);
    lemma_notice(a);
    lemma_notice(b);
    let d = command_capture::document_view(c);
    let x = command_capture::notice_parts(a);
    let y = command_capture::notice_parts(b);
    if c.stdout.unrecoverable_tail {
        assert(d.parts[2] == x[0]);
    }
    if c.stderr.unrecoverable_tail {
        assert(d.parts[2 + x.len() as int] == y[0]);
    }
}

proof fn lemma_notice(s: StreamView)
    ensures
        s.unrecoverable_tail ==> command_capture::notice_parts(s).len() == 1 && text::has(
            command_capture::notice_parts(s)[0].text,
            "tail is not recoverable"@,
        ) && text::starts(
            command_capture::notice_parts(s)[0].text,
            command_capture::stream_name(s.stream),
        ) && command_capture::notice_parts(s)[0].stream == OutputStream::Display,
        !s.unrecoverable_tail ==> command_capture::notice_parts(s).len() == 0,
{
    if s.unrecoverable_tail {
        let name = command_capture::stream_name(s.stream);
        let rest = " tail is not recoverable; output beyond the saved range was drained but not retained"@;
        let p = "tail is not recoverable"@;
        reveal_strlit("tail is not recoverable");
        reveal_strlit(
            " tail is not recoverable; output beyond the saved range was drained but not retained",
        );
        let t = name + rest;
        assert(t.subrange(0, name.len() as int) =~= name);
        assert(t.subrange(name.len() + 1 as int, name.len() + 1 + p.len() as int) =~= p);
        assert(text::stands_at(t, p, name.len() + 1 as int));
    }
}

/// How a command ended is told by what stopped it; where nothing did, by its exit. It is captured
/// whole exactly where nothing stopped it, it could be waited for, and neither stream was limited or
/// failed; each reason why it is not is named.
pub proof fn documents_tell_how_a_command_ended(c: CapturedCommand)
    ensures
        ({
            let d = command_capture::document_view(c);
            let t = c.termination.state;
            &&& t == Termination::TimedOut ==> d.execution == ExecutionStatus::TimedOut
            &&& t == Termination::Cancelled ==> d.execution == ExecutionStatus::Cancelled
            &&& t == Termination::Ran && c.status is None ==> d.execution
                == ExecutionStatus::Unknown
            &&& t == Termination::Ran && c.status is Some ==> d.execution == (
            ExecutionStatus::Exited { code: c.status->0.code, signal: c.status->0.signal })
            &&& d.capture == CaptureState::Complete <==> t == Termination::Ran && c.wait_error
                is None && !c.stdout.limited && !c.stderr.limited && !c.stdout.failed
                && !c.stderr.failed
            &&& d.capture == CaptureState::Complete <==> d.loss_reason is None
            &&& t == Termination::TimedOut ==> text::has(
                d.loss_reason->0,
                "command_timed_out"@,
            )
            &&& t == Termination::Cancelled ==> text::has(
                d.loss_reason->0,
                "command_cancelled"@,
            )
            &&& t == Termination::Ran && c.wait_error is Some ==> text::has(
                d.loss_reason->0,
                "command_wait_failed"@,
            )
            &&& c.stdout.limited || c.stderr.limited ==> text::has(
                d.loss_reason->0,
                "capture_limit"@,
            )
            &&& c.stdout.failed || c.stderr.failed ==> text::has(
                d.loss_reason->0,
                "capture_store_or_read_failed"@,
            )
        }),
{
    let r = command_capture::loss_reasons(c);
    let t = c.termination.state;
    let first: int = if t != Termination::Ran || c.wait_error is Some {
        1
    } else {
        0
    };
    let second: int = if c.stdout.limited || c.stderr.limited {
        1
    } else {
        0
    };
    if first == 1 {
        text::lemma_join_has(r, ","@, 0);
    }
    if second == 1 {
        assert(r[first] == "capture_limit"@);
        text::lemma_join_has(r, ","@, first);
    }
    if c.stdout.failed || c.stderr.failed {
        assert(r[first + second] == "capture_store_or_read_failed"@);
        text::lemma_join_has(r, ","@, first + second);
    }
}

/// A time that runs out is noted unless the command was stopped before.
pub proof fn timeouts_do_not_hide_a_cancellation()
    ensures
        command_capture::after_timeout(Termination::Ran) == Termination::TimedOut,
        command_capture::after_timeout(Termination::Cancelled) == Termination::Cancelled,
{
}

/// A line of a process listing that begins with two numbers names a process and its parent; any
/// further words are passed over. A line of fewer words, or of other words, names none.
pub proof fn listed_processes_are_read(pid: u32, parent: u32, rest: Seq<char>, word: Seq<char>, i: int)
    requires
        0 < i < word.len(),
        texts::solid(word),
        !texts::is_digit(word[i]),
    ensures
        ({
            let a = text::dec(pid as nat);
            let b = text::dec(parent as nat);
            &&& processes::line_edge(a + seq![' '] + b + seq![' '] + rest) == Some((pid, parent))
            &&& processes::line_edge(a + seq![' '] + b) == Some((pid, parent))
            &&& processes::line_edge(seq![' '] + a + seq![' '] + b) == Some((pid, parent))
            &&& processes::line_edge(a) is None
            &&& processes::line_edge(a + seq![' '] + word) is None
            &&& processes::line_edge(word + seq![' '] + b) is None
        }),
{
    let a = text::dec(pid as nat);
    let b = text::dec(parent as nat);
    lemma_solid(pid as nat);
    lemma_solid(parent as nat);
    texts::decimals_are_read_back(pid as nat, u32::MAX as nat);
    texts::decimals_are_read_back(parent as nat, u32::MAX as nat);
    texts::other_texts_are_no_numbers(word, u32::MAX as nat, i);
    texts::words_are_parted_by_white_space(b, ' ', rest);
    texts::words_are_parted_by_white_space(a, ' ', b + seq![' '] + rest);
    texts::words_are_parted_by_white_space(a, ' ', b);
    texts::words_are_parted_by_white_space(a, ' ', word);
    texts::words_are_parted_by_white_space(word, ' ', b);
    texts::words_are_parted_by_white_space(a, ' ', a + seq![' '] + b);
    assert(a + seq![' '] + b + seq![' '] + rest =~= a + seq![' '] + (b + seq![' '] + rest));
    assert(seq![' '] + a + seq![' '] + b =~= seq![' '] + (a + seq![' '] + b));
}

/// The processes of a listing are those that its lines name.
pub proof fn listings_name_processes(listing: Seq<u8>, e: (u32, u32))
    ensures
        processes::listing_view(listing).contains(e) <==> exists|i: int|
            0 <= i < text::lines_view(bytes::lossy(listing)).len() && processes::line_edge(
                #[trigger] text::lines_view(bytes::lossy(listing))[i],
            ) == Some(e),
{
    let ls = text::lines_view(bytes::lossy(listing));
    lemma_edges(ls, ls.len() as int, e);
}

proof fn lemma_edges(ls: Seq<Seq<char>>, n: int, e: (u32, u32))
    requires
        0 <= n <= ls.len(),
    ensures
        processes::edges_of(ls, n).contains(e) <==> exists|i: int|
            0 <= i < n && processes::line_edge(#[trigger] ls[i]) == Some(e),
    decreases n,
{
    if n > 0 {
        lemma_edges(ls, n - 1, e);
        let before = processes::edges_of(ls, n - 1);
        if let Some(x) = processes::line_edge(ls[n - 1]) {
            places::lemma_push_contains(before, x, e);
        }
        if exists|i: int| 0 <= i < n && processes::line_edge(#[trigger] ls[i]) == Some(e) {
            let i = choose|i: int| 0 <= i < n && processes::line_edge(#[trigger] ls[i]) == Some(e);
            if i < n - 1 {
                assert(processes::line_edge(ls[i]) == Some(e));
            }
        }
        if processes::line_edge(ls[n - 1]) == Some(e) {
            assert(processes::line_edge(ls[n - 1]) == Some(e));
        }
    }
}

proof fn lemma_solid(n: nat)
    ensures
        texts::solid(text::dec(n)),
        text::dec(n).len() > 0,
{
    texts::decimals_have_their_value(n);
    let s = text::dec(n);
    assert forall|i: int| 0 <= i < s.len() implies !text::white(#[trigger] s[i]) by {
        assert(texts::is_digit(s[i]));
    }
}

/// The children of a process descend from it, and so do theirs, however far down; a process that is
/// nobody's child descends from none.
pub proof fn descent_is_passed_on(edges: Seq<(u32, u32)>, root: u32, q: u32, pid: u32)
    ensures
        edges.contains((pid, root)) ==> processes::descends(edges, root, pid),
        processes::descends(edges, root, q) && edges.contains((pid, q)) ==> processes::descends(
            edges,
            root,
            pid,
        ),
        (forall|p: u32| !#[trigger] edges.contains((pid, p))) ==> !processes::descends(
            edges,
            root,
            pid,
        ),
        (forall|p: u32| !#[trigger] edges.contains((p, root))) ==> !processes::descends(
            edges,
            root,
            pid,
        ),
{
    if edges.contains((pid, root)) {
        assert(processes::descends_in(edges, root, pid, 0));
    }
    if processes::descends(edges, root, q) && edges.contains((pid, q)) {
        let n = choose|n: nat| processes::descends_in(edges, root, q, n);
        assert(processes::is_child(edges, q, pid));
        assert(processes::descends_in(edges, root, pid, n + 1));
    }
    if (forall|p: u32| !#[trigger] edges.contains((pid, p))) && processes::descends(
        edges,
        root,
        pid,
    ) {
        let n = choose|n: nat| processes::descends_in(edges, root, pid, n);
        if n > 0 {
            let p = choose|p: u32|
                processes::descends_in(edges, root, p, (n - 1) as nat)
                    && #[trigger] processes::is_child(edges, p, pid);
            assert(edges.contains((pid, p)));
        } else {
            assert(edges.contains((pid, root)));
        }
    }
    if (forall|p: u32| !#[trigger] edges.contains((p, root))) && processes::descends(
        edges,
        root,
        pid,
    ) {
        let n = choose|n: nat| processes::descends_in(edges, root, pid, n);
        lemma_first_child(edges, root, pid, n);
    }
}

proof fn lemma_first_child(edges: Seq<(u32, u32)>, root: u32, pid: u32, n: nat)
    requires
        processes::descends_in(edges, root, pid, n),
    ensures
        exists|p: u32| #[trigger] edges.contains((p, root)),
    decreases n,
{
    if n > 0 {
        let p = choose|p: u32|
            processes::descends_in(edges, root, p, (n - 1) as nat) && #[trigger] processes::is_child(
                edges,
                p,
                pid,
            );
        lemma_first_child(edges, root, p, (n - 1) as nat);
    } else {
        assert(edges.contains((pid, root)));
    }
}

} // verus!
