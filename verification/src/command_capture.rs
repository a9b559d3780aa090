//! The bounded capture of a command's output, and what is said of it.

use vstd::prelude::*;

use crate::bytes;
use crate::bytes::{byte_length, from_utf8, from_utf8_lossy};
use crate::json::Json;
use crate::text;
use crate::text::{cat, cat3, join, own};
use crate::utf8::Utf8Validator;

verus! {

/// How many of the last bytes of a stream are held.
pub const TAIL_BUFFER_BYTES: usize = 32768;

/// How a command was stopped, where it was.
#[derive(Debug, Clone, Copy, PartialEq, Eq, Structural)]
pub enum Termination {
    /// It was not.
    Ran,
    /// It ran out of time.
    TimedOut,
    /// It was cancelled.
    Cancelled,
}

/// Remembers how a command was stopped.
#[derive(Debug, Clone, Copy)]
pub struct CaptureTermination {
    pub state: Termination,
}

impl Default for CaptureTermination {
    fn default() -> (r: Self)
        ensures
            r.state == Termination::Ran,
    {
        CaptureTermination { state: Termination::Ran }
    }
}

/// The state after the time has run out.
pub open spec fn after_timeout(t: Termination) -> Termination {
    match t {
        Termination::Ran => Termination::TimedOut,
        other => other,
    }
}

impl CaptureTermination {
    /// Notes that the time ran out, unless the command was stopped before.
    pub fn mark_timed_out(&mut self)
        ensures
            final(self).state == after_timeout(old(self).state),
    {
        if self.state == Termination::Ran {
            self.state = Termination::TimedOut;
        }
    }

    /// Notes that the command was cancelled.
    pub fn mark_cancelled(&mut self)
        ensures
            final(self).state == Termination::Cancelled,
    {
        self.state = Termination::Cancelled;
    }
}

/// A cancelled command stays cancelled, whatever is noted after; a command that ran out of
/// time may still be cancelled.
pub proof fn cancellation_stays(t: Termination)
    ensures
        after_timeout(Termination::Cancelled) == Termination::Cancelled,
        after_timeout(after_timeout(t)) == after_timeout(t),
{
}

/// The last `n` bytes of a stream.
pub open spec fn last_bytes(b: Seq<u8>, n: nat) -> Seq<u8> {
    if b.len() <= n {
        b
    } else {
        b.skip(b.len() - n)
    }
}

/// Takes in a piece of a stream of which the last bytes are held.
pub fn append_tail(tail: &mut Vec<u8>, chunk: &[u8])
    ensures
        final(tail)@ == last_bytes(old(tail)@ + chunk@, TAIL_BUFFER_BYTES as nat),
{
    let ghost all = tail@ + chunk@;
    let n: usize = tail.len();
    let m: usize = chunk.len();
    let mut out: Vec<u8> = Vec::new();
    if m < TAIL_BUFFER_BYTES {
        let room: usize = TAIL_BUFFER_BYTES - m;
        let mut i: usize = if n <= room {
            0
        } else {
            n - room
        };
        let ghost from = i as int;
        while i < n
            invariant
                0 <= from <= i <= n,
                n == tail@.len(),
                out@ == tail@.subrange(from, i as int),
            decreases n - i,
        {
            out.push(tail[i]);
            i += 1;
            assert(out@ =~= tail@.subrange(from, i as int));
        }
        out.extend_from_slice(chunk);
        assert(out@ =~= last_bytes(all, TAIL_BUFFER_BYTES as nat));
    } else {
        let from: usize = m - TAIL_BUFFER_BYTES;
        let kept = vstd::slice::slice_subrange(chunk, from, m);
        out.extend_from_slice(kept);
        assert(out@ =~= last_bytes(all, TAIL_BUFFER_BYTES as nat));
    }
    *tail = out;
}

/// Taking in a stream in two pieces is taking it in at once.
pub proof fn tails_compose(a: Seq<u8>, b: Seq<u8>, c: Seq<u8>, n: nat)
    ensures
        last_bytes(last_bytes(a + b, n) + c, n) == last_bytes(a + (b + c), n),
{
    assert(last_bytes(last_bytes(a + b, n) + c, n) =~= last_bytes(a + (b + c), n));
}

/// The streams of a command, and what is shown beside them.
#[derive(Debug, Clone, Copy, PartialEq, Eq, Structural)]
pub enum OutputStream {
    Stdout,
    Stderr,
    Display,
}

/// The name of a stream.
pub open spec fn stream_name(s: OutputStream) -> Seq<char> {
    match s {
        OutputStream::Stdout => "Stdout"@,
        OutputStream::Stderr => "Stderr"@,
        OutputStream::Display => "Display"@,
    }
}

impl OutputStream {
    /// The stream's name.
    pub fn name(self) -> (r: &'static str)
        ensures
            r@ == stream_name(self),
    {
        match self {
            OutputStream::Stdout => "Stdout",
            OutputStream::Stderr => "Stderr",
            OutputStream::Display => "Display",
        }
    }
}

/// What was captured of a stream.
#[derive(Debug)]
pub struct CapturedStream {
    pub stream: OutputStream,
    pub text: String,
    pub start: u64,
    /// How many bytes the stream had, where its end was seen.
    pub total: Option<u64>,
    /// Whether bytes of the stream are lost.
    pub unrecoverable_tail: bool,
    /// Whether the stream was longer than what is saved of one.
    pub limited: bool,
    /// Whether reading or saving failed.
    pub failed: bool,
    /// Whether the text is not the stream as it was.
    pub transformed: bool,
}

/// What a [`CapturedStream`] stands for.
#[verifier::ext_equal]
pub struct StreamView {
    pub stream: OutputStream,
    pub text: Seq<char>,
    pub start: u64,
    pub total: Option<u64>,
    pub unrecoverable_tail: bool,
    pub limited: bool,
    pub failed: bool,
    pub transformed: bool,
}

impl View for CapturedStream {
    type V = StreamView;

    open spec fn view(&self) -> StreamView {
        StreamView {
            stream: self.stream,
            text: self.text@,
            start: self.start,
            total: self.total,
            unrecoverable_tail: self.unrecoverable_tail,
            limited: self.limited,
            failed: self.failed,
            transformed: self.transformed,
        }
    }
}

/// Takes in a stream piece by piece: the first bytes go to a spool, the last ones are held.
pub struct StreamDrain {
    stream: OutputStream,
    limit: usize,
    spooling: bool,
    failed: bool,
    ended: bool,
    total: u64,
    tail: Vec<u8>,
    validator: Utf8Validator,
}

/// What a [`StreamDrain`] stands for.
#[verifier::ext_equal]
pub struct DrainView {
    pub stream: OutputStream,
    pub limit: nat,
    /// Whether a spool takes the first bytes.
    pub spooling: bool,
    pub failed: bool,
    pub ended: bool,
    /// The bytes of the stream so far.
    pub bytes: Seq<u8>,
}

impl View for StreamDrain {
    type V = DrainView;

    closed spec fn view(&self) -> DrainView {
        DrainView {
            stream: self.stream,
            limit: self.limit as nat,
            spooling: self.spooling,
            failed: self.failed,
            ended: self.ended,
            bytes: self.validator@,
        }
    }
}

/// A count that stops growing at the largest `u64`.
pub open spec fn counted(n: int) -> u64 {
    if n <= u64::MAX {
        n as u64
    } else {
        u64::MAX
    }
}

/// How many of `n` more bytes go to a spool that takes `limit`, after `before`.
pub open spec fn spool_share(limit: nat, before: int, n: int) -> int {
    let room = if before >= limit {
        0
    } else {
        limit - before
    };
    if room <= n {
        room
    } else {
        n
    }
}

/// Whatever the pieces, a spool takes the first bytes of the stream, up to its limit.
pub proof fn spool_takes_the_front(limit: nat, before: int, n: int)
    requires
        before >= 0,
        n >= 0,
    ensures
        ({
            let held = if before <= limit {
                before
            } else {
                limit as int
            };
            held + spool_share(limit, before, n) == (if before + n <= limit {
                before + n
            } else {
                limit as int
            })
        }),
{
}

/// The bytes that a stream is shown by: those of the spool, or, where the spool holds none,
/// the last ones, provided that they are the whole stream.
pub open spec fn shown_bytes(captured: Seq<u8>, all: Seq<u8>) -> Seq<u8> {
    if captured.len() == 0 && all.len() > 0 {
        if all.len() <= TAIL_BUFFER_BYTES {
            all
        } else {
            Seq::empty()
        }
    } else {
        captured
    }
}

/// What was captured of a stream, given what its spool held.
pub open spec fn captured_view(d: DrainView, captured: Option<Seq<u8>>) -> StreamView {
    let held = match captured {
        Some(b) => if d.spooling {
            b
        } else {
            Seq::empty()
        },
        None => Seq::empty(),
    };
    let source = shown_bytes(held, d.bytes);
    let total = counted(d.bytes.len() as int);
    StreamView {
        stream: d.stream,
        text: bytes::lossy(source),
        start: 0,
        total: if d.ended {
            Some(total)
        } else {
            None
        },
        unrecoverable_tail: !d.ended || bytes::byte_len(bytes::lossy(source)) < total,
        limited: total > d.limit,
        failed: d.failed || (d.spooling && captured is None),
        transformed: !vstd::utf8::valid_utf8(d.bytes) || !vstd::utf8::valid_utf8(source),
    }
}

/// A stream that came to its end within the limit, and that a spool held, is captured whole:
/// by all of its bytes, with their number, and neither as limited nor as failed.
pub proof fn whole_streams_are_kept(d: DrainView)
    requires
        d.ended && d.spooling && !d.failed,
        d.bytes.len() <= d.limit,
        d.bytes.len() <= u64::MAX,
    ensures
        captured_view(d, Some(d.bytes)).text == bytes::lossy(d.bytes),
        captured_view(d, Some(d.bytes)).total == Some(d.bytes.len() as u64),
        !captured_view(d, Some(d.bytes)).limited && !captured_view(d, Some(d.bytes)).failed,
{
    if d.bytes.len() == 0 {
        assert(shown_bytes(d.bytes, d.bytes) =~= d.bytes);
    }
}

/// Without a spool a stream is still shown whole where its last bytes are all of it, and is
/// marked as failed; of a longer one nothing is shown, and the loss is marked.
pub proof fn short_streams_outlive_their_spool(d: DrainView, captured: Option<Seq<u8>>)
    requires
        !d.spooling && d.failed,
        d.bytes.len() <= u64::MAX,
    ensures
        captured_view(d, captured).failed,
        d.bytes.len() <= TAIL_BUFFER_BYTES ==> captured_view(d, captured).text == bytes::lossy(
            d.bytes,
        ),
        d.bytes.len() > TAIL_BUFFER_BYTES ==> captured_view(d, captured).text == bytes::lossy(
            Seq::empty(),
        ),
{
    if d.bytes.len() == 0 {
        assert(d.bytes =~= Seq::empty());
    }
}

impl StreamDrain {
    /// What the fields say of the stream so far.
    pub closed spec fn wf(&self) -> bool {
        &&& self.validator.wf()
        &&& self.total == counted(self.validator@.len() as int)
        &&& self.tail@ == last_bytes(self.validator@, TAIL_BUFFER_BYTES as nat)
    }

    /// The capture of a stream of which `limit` bytes are saved. Without a spool to save them
    /// the capture has failed.
    pub fn new(stream: OutputStream, limit: usize, spool: bool) -> (r: Self)
        ensures
            r.wf(),
            r@ == (DrainView {
                stream,
                limit: limit as nat,
                spooling: spool,
                failed: !spool,
                ended: false,
                bytes: Seq::empty(),
            }),
    {
        StreamDrain {
            stream,
            limit,
            spooling: spool,
            failed: !spool,
            ended: false,
            total: 0,
            tail: Vec::new(),
            validator: Utf8Validator::default(),
        }
    }

    /// Takes in a piece of the stream, and says how many of its first bytes go to the spool.
    pub fn read(&mut self, chunk: &[u8]) -> (r: usize)
        requires
            old(self).wf(),
        ensures
            final(self).wf(),
            final(self)@ == (DrainView { bytes: old(self)@.bytes + chunk@, ..old(self)@ }),
            r == (if old(self)@.spooling {
                spool_share(
                    old(self)@.limit,
                    counted(old(self)@.bytes.len() as int) as int,
                    chunk@.len() as int,
                )
            } else {
                0
            }),
            r <= chunk@.len(),
    {
        let ghost earlier = self.validator@;
        let before: u64 = self.total;
        let n: usize = chunk.len();
        self.validator.push(chunk);
        append_tail(&mut self.tail, chunk);
        proof {
            tails_compose(Seq::empty(), earlier, chunk@, TAIL_BUFFER_BYTES as nat);
            assert(Seq::<u8>::empty() + earlier =~= earlier);
            assert(Seq::<u8>::empty() + (earlier + chunk@) =~= earlier + chunk@);
        }
        let piece: u64 = n as u64;
        self.total = if before > u64::MAX - piece {
            u64::MAX
        } else {
            before + piece
        };
        if !self.spooling {
            return 0;
        }
        let limit: u64 = self.limit as u64;
        let room: u64 = if before >= limit {
            0
        } else {
            limit - before
        };
        if room <= piece {
            room as usize
        } else {
            n
        }
    }

    /// Notes that the spool could not take what it was given; it is given no more.
    pub fn spool_failed(&mut self)
        requires
            old(self).wf(),
        ensures
            final(self).wf(),
            final(self)@ == (DrainView { failed: true, spooling: false, ..old(self)@ }),
    {
        self.failed = true;
        self.spooling = false;
    }

    /// Notes that the stream could not be read on.
    pub fn read_failed(&mut self)
        requires
            old(self).wf(),
        ensures
            final(self).wf(),
            final(self)@ == (DrainView { failed: true, ..old(self)@ }),
    {
        self.failed = true;
    }

    /// Notes that the stream has ended.
    pub fn end(&mut self)
        requires
            old(self).wf(),
        ensures
            final(self).wf(),
            final(self)@ == (DrainView { ended: true, ..old(self)@ }),
    {
        self.ended = true;
    }

    /// What was captured, given what the spool held; nothing is given where it could not be
    /// read back.
    pub fn finish(self, captured: Option<Vec<u8>>) -> (r: CapturedStream)
        requires
            self.wf(),
        ensures
            r@ == captured_view(
                self@,
                match captured {
                    Some(b) => Some(b@),
                    None => None,
                },
            ),
    {
        let ghost all = self.validator@;
        let stream = self.stream;
        let limit: usize = self.limit;
        let spooling: bool = self.spooling;
        let ended: bool = self.ended;
        let total: u64 = self.total;
        let mut failed: bool = self.failed;
        let tail = self.tail;
        let valid = self.validator.finish();
        let held: Vec<u8> = match captured {
            Some(b) => if spooling {
                b
            } else {
                Vec::new()
            },
            None => {
                if spooling {
                    failed = true;
                }
                Vec::new()
            },
        };
        let source: Vec<u8> = if held.len() == 0 && total > 0 {
            if total == tail.len() as u64 {
                tail
            } else {
                Vec::new()
            }
        } else {
            held
        };
        let whole = from_utf8(source.as_slice());
        let shown = from_utf8_lossy(source.as_slice());
        let transformed = !valid || whole.is_none();
        let unrecoverable_tail = !ended || (byte_length(&shown) as u64) < total;
        assert(source@ =~= shown_bytes(
            match captured {
                Some(b) => if spooling {
                    b@
                } else {
                    Seq::empty()
                },
                None => Seq::empty(),
            },
            all,
        ));
        CapturedStream {
            stream,
            text: shown,
            start: 0,
            total: if ended {
                Some(total)
            } else {
                None
            },
            unrecoverable_tail,
            limited: total > limit as u64,
            failed,
            transformed,
        }
    }
}

/// What is said of a stream that could not be captured at all.
pub fn missing_stream(stream: OutputStream) -> (r: CapturedStream)
    ensures
        r@ == (StreamView {
            stream,
            text: Seq::empty(),
            start: 0,
            total: None,
            unrecoverable_tail: true,
            limited: false,
            failed: true,
            transformed: false,
        }),
{
    let text = String::new();
    CapturedStream {
        stream,
        text,
        start: 0,
        total: None,
        unrecoverable_tail: true,
        limited: false,
        failed: true,
        transformed: false,
    }
}

/// A part of an output document.
#[derive(Debug)]
pub struct OutputPart {
    pub stream: OutputStream,
    pub text: String,
    pub start: u64,
    pub total: Option<u64>,
}

/// What an [`OutputPart`] stands for.
#[verifier::ext_equal]
pub struct PartView {
    pub stream: OutputStream,
    pub text: Seq<char>,
    pub start: u64,
    pub total: Option<u64>,
}

impl View for OutputPart {
    type V = PartView;

    open spec fn view(&self) -> PartView {
        PartView { stream: self.stream, text: self.text@, start: self.start, total: self.total }
    }
}

/// How a command ended.
#[derive(Debug, Clone, Copy, PartialEq, Eq, Structural)]
pub enum ExecutionStatus {
    /// By itself, with a code or by a signal.
    Exited { code: Option<i32>, signal: Option<i32> },
    /// Its time ran out.
    TimedOut,
    /// It was cancelled.
    Cancelled,
    /// It is not known.
    Unknown,
}

/// The exit of a process.
#[derive(Debug, Clone, Copy, PartialEq, Eq, Structural)]
pub struct Exit {
    pub code: Option<i32>,
    pub signal: Option<i32>,
}

/// Whether a capture holds everything.
#[derive(Debug, Clone, Copy, PartialEq, Eq, Structural)]
pub enum CaptureState {
    Complete,
    Partial,
}

/// What is known of a command's output.
#[derive(Debug)]
pub struct OutputDocument {
    pub parts: Vec<OutputPart>,
    pub capture: CaptureState,
    pub execution: ExecutionStatus,
    pub transformed: bool,
    pub loss_reason: Option<String>,
}

/// What an [`OutputDocument`] stands for.
#[verifier::ext_equal]
pub struct DocumentView {
    pub parts: Seq<PartView>,
    pub capture: CaptureState,
    pub execution: ExecutionStatus,
    pub transformed: bool,
    pub loss_reason: Option<Seq<char>>,
}

impl View for OutputDocument {
    type V = DocumentView;

    open spec fn view(&self) -> DocumentView {
        DocumentView {
            parts: text::views(self.parts@),
            capture: self.capture,
            execution: self.execution,
            transformed: self.transformed,
            loss_reason: text::opt(self.loss_reason),
        }
    }
}

/// What is said in place of bytes that are lost.
pub open spec fn notice_view(s: StreamView) -> Option<Seq<char>> {
    if s.unrecoverable_tail {
        Some(
            stream_name(s.stream)
                + " tail is not recoverable; output beyond the saved range was drained but not retained"@,
        )
    } else {
        None
    }
}

/// The part that a stream makes.
pub open spec fn part_view(s: StreamView) -> PartView {
    PartView { stream: s.stream, text: s.text, start: s.start, total: s.total }
}

/// The part that a notice makes.
pub open spec fn notice_parts(s: StreamView) -> Seq<PartView> {
    match notice_view(s) {
        Some(t) => seq![
            PartView { stream: OutputStream::Display, text: t, start: 0, total: None },
        ],
        None => Seq::empty(),
    }
}

impl CapturedStream {
    /// The part that the stream makes.
    pub fn part(&self) -> (r: OutputPart)
        ensures
            r@ == part_view(self@),
    {
        let text = own(&self.text);
        OutputPart { stream: self.stream, text, start: self.start, total: self.total }
    }

    /// What is said in place of bytes that are lost; none of them is shown.
    pub fn tail_notice(&self) -> (r: Option<String>)
        ensures
            text::opt(r) == notice_view(self@),
    {
        if !self.unrecoverable_tail {
            return None;
        }
        Some(
            cat(
                self.stream.name(),
                " tail is not recoverable; output beyond the saved range was drained but not retained",
            ),
        )
    }
}

/// A command that ran, and what was captured of it.
#[derive(Debug)]
pub struct CapturedCommand {
    pub stdout: CapturedStream,
    pub stderr: CapturedStream,
    /// Its exit, where it was waited for.
    pub status: Option<Exit>,
    /// Why it could not be waited for.
    pub wait_error: Option<String>,
    pub termination: CaptureTermination,
}

/// What the streams of a command show together.
pub open spec fn both_texts(out: Seq<char>, err: Seq<char>) -> Seq<char> {
    if out.len() == 0 && err.len() == 0 {
        "(no output)"@
    } else if err.len() == 0 {
        out
    } else if out.len() == 0 {
        err
    } else {
        out + "\n--- stderr ---\n"@ + err
    }
}

/// How a command ended.
pub open spec fn execution_of(t: Termination, status: Option<Exit>) -> ExecutionStatus {
    match t {
        Termination::TimedOut => ExecutionStatus::TimedOut,
        Termination::Cancelled => ExecutionStatus::Cancelled,
        Termination::Ran => match status {
            Some(e) => ExecutionStatus::Exited { code: e.code, signal: e.signal },
            None => ExecutionStatus::Unknown,
        },
    }
}

/// Why a capture is not complete.
pub open spec fn loss_reasons(c: CapturedCommand) -> Seq<Seq<char>> {
    (match c.termination.state {
        Termination::TimedOut => seq!["command_timed_out"@],
        Termination::Cancelled => seq!["command_cancelled"@],
        Termination::Ran => if c.wait_error is Some {
            seq!["command_wait_failed"@]
        } else {
            Seq::empty()
        },
    }) + (if c.stdout.limited || c.stderr.limited {
        seq!["capture_limit"@]
    } else {
        Seq::empty()
    }) + (if c.stdout.failed || c.stderr.failed {
        seq!["capture_store_or_read_failed"@]
    } else {
        Seq::empty()
    })
}

/// What is known of a command's output.
pub open spec fn document_view(c: CapturedCommand) -> DocumentView {
    DocumentView {
        parts: seq![part_view(c.stdout@), part_view(c.stderr@)] + notice_parts(c.stdout@)
            + notice_parts(c.stderr@),
        capture: if loss_reasons(c).len() == 0 {
            CaptureState::Complete
        } else {
            CaptureState::Partial
        },
        execution: execution_of(c.termination.state, c.status),
        transformed: c.stdout.transformed || c.stderr.transformed,
        loss_reason: if loss_reasons(c).len() == 0 {
            None
        } else {
            Some(text::join_view(loss_reasons(c), ","@))
        },
    }
}

fn push_text(list: &mut Vec<String>, s: &str)
    ensures
        text::views(final(list)@) == text::views(old(list)@).push(s@),
{
    broadcast use text::lemma_views_push;

    let t = own(s);
    list.push(t);
}

fn push_notice(parts: &mut Vec<OutputPart>, s: &CapturedStream)
    ensures
        text::views(final(parts)@) == text::views(old(parts)@) + notice_parts(s@),
{
    broadcast use text::lemma_views_push;

    let ghost before = text::views(parts@);
    match s.tail_notice() {
        Some(text) => {
            parts.push(
                OutputPart { stream: OutputStream::Display, text, start: 0, total: None },
            );
        },
        None => {},
    }
    assert(text::views(parts@) =~= before + notice_parts(s@));
}

impl CapturedCommand {
    /// Whether the command ended by itself and well.
    pub fn success(&self) -> (r: bool)
        ensures
            r == (self.termination.state == Termination::Ran && (self.status matches Some(e)
                && e.code == Some(0i32))),
    {
        if self.termination.state != Termination::Ran {
            return false;
        }
        match self.status {
            Some(e) => e.code == Some(0i32),
            None => false,
        }
    }

    /// The command's exit code.
    pub fn exit_code(&self) -> (r: Option<i32>)
        ensures
            r == (match self.status {
                Some(e) => e.code,
                None => None,
            }),
    {
        match self.status {
            Some(e) => e.code,
            None => None,
        }
    }

    /// Why the command could not be waited for.
    pub fn wait_error(&self) -> (r: Option<&str>)
        ensures
            (match r {
                Some(e) => Some(e@),
                None => None,
            }) == text::opt(self.wait_error),
    {
        match &self.wait_error {
            Some(e) => Some(e.as_str()),
            None => None,
        }
    }

    /// What the streams show together.
    pub fn text(&self) -> (r: String)
        ensures
            r@ == both_texts(self.stdout.text@, self.stderr.text@),
    {
        let out = self.stdout.text.as_str();
        let err = self.stderr.text.as_str();
        if err.is_empty() {
            if out.is_empty() {
                let r = own("(no output)");
                assert(r@ =~= "(no output)"@);
                r
            } else {
                let r = own(out);
                assert(r@ =~= out@);
                r
            }
        } else if out.is_empty() {
            let r = own(err);
            assert(r@ =~= err@);
            r
        } else {
            cat3(out, "\n--- stderr ---\n", err)
        }
    }

    /// What is known of the command's output.
    pub fn document(&self) -> (r: OutputDocument)
        ensures
            r@ == document_view(*self),
    {
        broadcast use text::lemma_views_push;

        let execution = match self.termination.state {
            Termination::TimedOut => ExecutionStatus::TimedOut,
            Termination::Cancelled => ExecutionStatus::Cancelled,
            Termination::Ran => match self.status {
                Some(e) => ExecutionStatus::Exited { code: e.code, signal: e.signal },
                None => ExecutionStatus::Unknown,
            },
        };
        let mut reasons: Vec<String> = Vec::new();
        proof {
            text::lemma_views_empty(reasons@);
        }
        match self.termination.state {
            Termination::TimedOut => {
                push_text(&mut reasons, "command_timed_out");
            },
            Termination::Cancelled => {
                push_text(&mut reasons, "command_cancelled");
            },
            Termination::Ran => {
                if self.wait_error.is_some() {
                    push_text(&mut reasons, "command_wait_failed");
                }
            },
        }
        if self.stdout.limited || self.stderr.limited {
            push_text(&mut reasons, "capture_limit");
        }
        if self.stdout.failed || self.stderr.failed {
            push_text(&mut reasons, "capture_store_or_read_failed");
        }
        assert(text::views(reasons@) =~= loss_reasons(*self));
        assert(reasons@.len() == text::views(reasons@).len());
        let mut parts: Vec<OutputPart> = Vec::new();
        proof {
            text::lemma_views_empty(parts@);
        }
        parts.push(self.stdout.part());
        parts.push(self.stderr.part());
        push_notice(&mut parts, &self.stdout);
        push_notice(&mut parts, &self.stderr);
        assert(text::views(parts@) =~= document_view(*self).parts);
        let complete = reasons.len() == 0;
        OutputDocument {
            parts,
            capture: if complete {
                CaptureState::Complete
            } else {
                CaptureState::Partial
            },
            execution,
            transformed: self.stdout.transformed || self.stderr.transformed,
            loss_reason: if complete {
                None
            } else {
                Some(join(&reasons, ","))
            },
        }
    }
}

/// A command that was stopped, or whose streams were cut short or lost, is never said to be
/// captured whole.
pub proof fn complete_captures_lost_nothing(c: CapturedCommand)
    requires
        document_view(c).capture == CaptureState::Complete,
    ensures
        c.termination.state == Termination::Ran,
        !c.stdout.limited && !c.stderr.limited,
        !c.stdout.failed && !c.stderr.failed,
        document_view(c).loss_reason is None,
{
}

/// A stream of which bytes are lost is marked by a notice.
pub proof fn lost_bytes_are_announced(c: CapturedCommand)
    ensures
        document_view(c).parts.len() == 2 + notice_parts(c.stdout@).len() + notice_parts(
            c.stderr@,
        ).len(),
        c.stdout.unrecoverable_tail ==> notice_parts(c.stdout@).len() == 1,
        c.stderr.unrecoverable_tail ==> notice_parts(c.stderr@).len() == 1,
{
}

/// Under what a command's output can be found again.
#[derive(Debug)]
pub struct RecoveryRegistration {
    pub output_id: String,
    pub call_id: String,
    pub args: Json,
}

impl RecoveryRegistration {
    /// A registration, where outputs are kept at all and both ids are known.
    pub fn from_context(
        kept: Option<bool>,
        output_id: String,
        call_id: String,
        args: Json,
    ) -> (r: Option<Self>)
        ensures
            r is Some <==> (kept == Some(true) && output_id@.len() > 0 && call_id@.len() > 0),
            r matches Some(g) ==> g.output_id == output_id && g.call_id == call_id && g.args
                == args,
    {
        if kept != Some(true) || output_id.as_str().is_empty() || call_id.as_str().is_empty() {
            None
        } else {
            Some(RecoveryRegistration { output_id, call_id, args })
        }
    }
}

} // verus!
