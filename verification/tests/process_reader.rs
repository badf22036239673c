//! The lines of a stream.

use droidlog::executor::ExecMode;
use droidlog::parser::LogRecord;
use droidlog::process::open_manual_session;
use droidlog::process::reader::{
    decode_line, target_matches, Intake, StderrTail, EVENT_RECORDS, EVENT_SESSION_STATUS,
};
use droidlog::ring::RingBuffer;
use droidlog::source::LogSourceKind;
use droidlog::state::AppState;

#[test]
fn reader_event_names_are_namespaced() {
    assert!(EVENT_RECORDS.starts_with("droidlog://"));
    assert!(EVENT_SESSION_STATUS.starts_with("droidlog://"));
    assert_ne!(EVENT_RECORDS, EVENT_SESSION_STATUS);
}

#[test]
fn stderr_summary_is_none_when_empty() {
    let tail = StderrTail::new();
    assert_eq!(tail.summary(), None);
}

#[test]
fn stderr_summary_joins_lines_in_order() {
    let mut tail = StderrTail::new();
    tail.push("su: not found".to_owned());
    tail.push("second line".to_owned());
    assert_eq!(
        tail.summary().as_deref(),
        Some("su: not found\nsecond line")
    );
}

#[test]
fn flush_ignores_empty_batches() {
    // An empty batch must not touch the ring, nor be announced.
    let mut state = AppState::new();
    let buffer = RingBuffer::<LogRecord>::new(4);
    let mut intake = Intake::new("session-1");
    assert_eq!(intake.pending(), 0);
    assert!(intake.flush(&mut state).is_none());
    assert!(buffer.is_empty());
}

#[test]
fn invalid_utf8_does_not_kill_the_stream() {
    // The regression that mattered: a single bad byte used to abort the
    // whole session with `stream did not contain valid UTF-8`, which looked
    // exactly like the capture stopping by itself.
    let line = decode_line(&[0xff, 0xfe, b'h', b'i']);
    assert!(line.ends_with("hi"), "readable bytes must survive: {line:?}");

    // A truncated multi-byte sequence (a real possibility at a buffer
    // boundary) must decode rather than fail.
    let truncated = decode_line(&[0xe4, 0xbd]);
    assert!(!truncated.is_empty());
}

#[test]
fn valid_utf8_survives_decoding_unchanged() {
    assert_eq!(decode_line("内核日志".as_bytes()), "内核日志");
    assert_eq!(decode_line(b"09-01 12:34:56.789  1  2 I Tag: hi"), "09-01 12:34:56.789  1  2 I Tag: hi");
}

#[test]
fn nobody_followed_nothing_hidden() {
    let record = LogRecord::raw_line(LogSourceKind::Logcat, 7, "anything at all");
    assert!(target_matches(&None, &record));
    assert!(Intake::new("session-1").accepts(&record, u64::MAX));
}

#[test]
fn records_keep_the_time_they_were_received_at() {
    let mut state = AppState::new();
    let session = match open_manual_session(
        &mut state,
        "R58M",
        ExecMode::Adb,
        LogSourceKind::Logcat,
        "logcat",
        8,
        1,
    ) {
        Ok(session) => session,
        Err(error) => panic!("{}", error.to_string()),
    };
    let mut record = LogRecord::raw_line(LogSourceKind::Logcat, 7, "anything at all");
    record.received_at_ms = 1_234;
    let mut intake = Intake::new(&session.id);
    intake.push(record);
    let Some(event) = intake.flush(&mut state) else {
        panic!("a batch is announced");
    };
    assert_eq!(event.records[0].received_at_ms, 1_234);
    match state.session_records(&session.id, None) {
        Ok(kept) => assert_eq!(kept[0].received_at_ms, 1_234),
        Err(error) => panic!("{}", error.to_string()),
    }
}
