//! Capturing a command's output.

use octos_agent::command_capture::{
    append_tail, missing_stream, CaptureState, CaptureTermination, CapturedCommand, CapturedStream,
    ExecutionStatus, Exit, OutputStream, RecoveryRegistration, StreamDrain, Termination,
    TAIL_BUFFER_BYTES,
};
use octos_agent::json::Json;
use octos_agent::utf8::Utf8Validator;

fn stream(stream: OutputStream, bytes: &[u8]) -> CapturedStream {
    let mut drain = StreamDrain::new(stream, 1 << 20, true);
    let kept = drain.read(bytes);
    drain.end();
    drain.finish(Some(bytes[..kept].to_vec()))
}

fn command(stdout: CapturedStream, stderr: CapturedStream, code: i32) -> CapturedCommand {
    CapturedCommand {
        stdout,
        stderr,
        status: Some(Exit { code: Some(code), signal: None }),
        wait_error: None,
        termination: CaptureTermination::default(),
    }
}

#[test]
fn utf8_validator_keeps_characters_split_across_reads() {
    let bytes = "前缀🙂末尾".as_bytes();
    let mut validator = Utf8Validator::default();
    for byte in bytes {
        validator.push(std::slice::from_ref(byte));
    }
    assert!(validator.finish());

    let mut validator = Utf8Validator::default();
    validator.push(b"valid");
    validator.push(&[0xff]);
    assert!(!validator.finish());
}

#[test]
fn pieces_do_not_matter_to_the_validator() {
    let streams: [&[u8]; 9] = [
        b"",
        b"plain",
        &[0xc3],
        &[0xe2, 0x82],
        &[0xe2, 0x41, 0x42],
        &[0xed, 0xa0, 0x80],
        &[0xc0, 0x80],
        &[0xf4, 0x90, 0x80, 0x80],
        &[0xf0, 0x9f, 0x99, 0x82, 0x80],
    ];
    for bytes in streams {
        let whole = std::str::from_utf8(bytes).is_ok();
        for cut in 0..=bytes.len() {
            let mut v = Utf8Validator::default();
            v.push(&bytes[..cut]);
            v.push(&bytes[cut..]);
            assert_eq!(v.finish(), whole, "{bytes:?} cut at {cut}");
        }
    }
}

#[test]
fn spool_failure_keeps_draining_with_bounded_tail() {
    let bytes = vec![b'x'; TAIL_BUFFER_BYTES * 4];
    let expected = bytes.len() as u64;
    let mut drain = StreamDrain::new(OutputStream::Stdout, 1 << 20, false);
    for chunk in bytes.chunks(4096) {
        assert_eq!(drain.read(chunk), 0);
    }
    drain.end();
    let captured = drain.finish(None);
    assert_eq!(captured.total, Some(expected));
    assert!(captured.failed);
    assert!(captured.text.is_empty());
    assert_eq!(captured.start, 0);
    assert!(captured.unrecoverable_tail);
}

#[test]
fn a_short_stream_survives_the_loss_of_its_spool() {
    let mut drain = StreamDrain::new(OutputStream::Stdout, 1 << 20, true);
    assert_eq!(drain.read(b"short"), 5);
    drain.spool_failed();
    assert_eq!(drain.read(b" text"), 0);
    drain.end();
    let captured = drain.finish(None);
    assert_eq!(captured.text, "short text");
    assert!(captured.failed && !captured.unrecoverable_tail);
}

#[test]
fn a_spool_takes_the_front_of_a_stream() {
    let mut drain = StreamDrain::new(OutputStream::Stderr, 6, true);
    assert_eq!(drain.read(b"abcd"), 4);
    assert_eq!(drain.read(b"efgh"), 2);
    assert_eq!(drain.read(b"ijkl"), 0);
    drain.end();
    let captured = drain.finish(Some(b"abcdef".to_vec()));
    assert_eq!(captured.text, "abcdef");
    assert!(captured.limited && captured.unrecoverable_tail && !captured.failed);
    assert_eq!(captured.total, Some(12));
}

#[test]
fn a_stream_that_broke_off_has_no_total() {
    let mut drain = StreamDrain::new(OutputStream::Stdout, 100, true);
    drain.read(b"abc");
    drain.read_failed();
    let captured = drain.finish(Some(b"abc".to_vec()));
    assert_eq!(captured.total, None);
    assert!(captured.failed && captured.unrecoverable_tail);
}

#[test]
fn tails_hold_the_last_bytes() {
    let mut tail = Vec::new();
    append_tail(&mut tail, &vec![1u8; TAIL_BUFFER_BYTES]);
    append_tail(&mut tail, &[2, 3]);
    assert_eq!(tail.len(), TAIL_BUFFER_BYTES);
    assert_eq!(&tail[TAIL_BUFFER_BYTES - 3..], &[1, 2, 3]);
    append_tail(&mut tail, &vec![9u8; TAIL_BUFFER_BYTES + 1]);
    assert_eq!(tail, vec![9u8; TAIL_BUFFER_BYTES]);
}

#[test]
fn drains_large_stdout_and_short_stderr_without_losing_exit_status() {
    let limit = 64 * 1024;
    let marker = "stdout-tail-marker\n";
    let mut bytes = vec![b'A'; limit + TAIL_BUFFER_BYTES * 2];
    bytes.extend_from_slice(marker.as_bytes());
    let mut drain = StreamDrain::new(OutputStream::Stdout, limit, true);
    let mut spool = Vec::new();
    for chunk in bytes.chunks(15 * 1024) {
        let n = drain.read(chunk);
        spool.extend_from_slice(&chunk[..n]);
    }
    drain.end();
    let stdout = drain.finish(Some(spool));
    assert_eq!(stdout.text.len(), limit);
    assert_eq!(stdout.total, Some(bytes.len() as u64));
    assert!(stdout.limited);
    let capture = command(stdout, stream(OutputStream::Stderr, b"unique-stderr-marker\n"), 7);
    assert_eq!(capture.exit_code(), Some(7));
    assert!(!capture.success());
    assert!(capture.stderr.text.contains("unique-stderr-marker"));

    let document = capture.document();
    assert_eq!(document.capture, CaptureState::Partial);
    assert_eq!(document.execution, ExecutionStatus::Exited { code: Some(7), signal: None });
    assert!(document.loss_reason.as_deref().is_some_and(|r| r.contains("capture_limit")));
    assert!(document
        .parts
        .iter()
        .any(|p| p.stream == OutputStream::Display && p.text.contains("not recoverable")));
    assert!(!document.parts.iter().any(|p| p.text.contains(marker.trim())));
}

#[test]
fn invalid_utf8_is_lossy_and_never_claims_raw_coordinates() {
    let capture =
        command(stream(OutputStream::Stdout, b"\xffbroken\n"), stream(OutputStream::Stderr, b""), 0);
    assert_eq!(capture.stdout.text, "\u{fffd}broken\n");
    assert!(capture.document().transformed);
}

#[test]
fn a_command_that_ended_well_is_captured_whole() {
    let capture =
        command(stream(OutputStream::Stdout, b"hi"), stream(OutputStream::Stderr, b"oops"), 0);
    assert!(capture.success());
    assert_eq!(capture.text(), "hi\n--- stderr ---\noops");
    let document = capture.document();
    assert_eq!(document.capture, CaptureState::Complete);
    assert_eq!(document.loss_reason, None);
    assert_eq!(document.parts.len(), 2);
    let quiet = command(stream(OutputStream::Stdout, b""), stream(OutputStream::Stderr, b""), 0);
    assert_eq!(quiet.text(), "(no output)");
}

#[test]
fn stopped_commands_never_succeed() {
    let mut capture =
        command(stream(OutputStream::Stdout, b""), missing_stream(OutputStream::Stderr), 0);
    capture.termination.mark_timed_out();
    assert_eq!(capture.termination.state, Termination::TimedOut);
    assert!(!capture.success());
    let document = capture.document();
    assert_eq!(document.execution, ExecutionStatus::TimedOut);
    assert_eq!(
        document.loss_reason.as_deref(),
        Some("command_timed_out,capture_store_or_read_failed")
    );
    capture.termination.mark_cancelled();
    capture.termination.mark_timed_out();
    assert_eq!(capture.document().execution, ExecutionStatus::Cancelled);

    let mut lost = command(stream(OutputStream::Stdout, b""), stream(OutputStream::Stderr, b""), 0);
    lost.status = None;
    lost.wait_error = Some("no child".to_string());
    assert_eq!(lost.wait_error(), Some("no child"));
    assert_eq!(lost.document().execution, ExecutionStatus::Unknown);
    assert_eq!(lost.document().loss_reason.as_deref(), Some("command_wait_failed"));
}

#[test]
fn outputs_are_registered_only_where_they_are_kept() {
    let make = |kept: Option<bool>, id: &str, call: &str| {
        RecoveryRegistration::from_context(kept, id.to_string(), call.to_string(), Json::Null)
    };
    assert!(make(Some(true), "out", "call").is_some());
    assert!(make(Some(false), "out", "call").is_none());
    assert!(make(None, "out", "call").is_none());
    assert!(make(Some(true), "", "call").is_none());
    assert!(make(Some(true), "out", "").is_none());
}
