//! logcat line parsers.

use droidlog::parser::logcat::parse_uid_token;
use droidlog::parser::{parse_logcat, parse_logcat_brief, parse_logcat_threadtime, LogLevel};

const THREADTIME: &str = "09-01 12:34:56.789  1234  5678 I ActivityManager: Start proc 4321:com.example/u0a123";

#[test]
fn threadtime_line_is_fully_decoded() {
    let record = parse_logcat_threadtime(THREADTIME, 1);
    let Some(record) = record else {
        unreachable!("sample must parse")
    };
    assert_eq!(record.level, LogLevel::Info);
    assert_eq!(record.timestamp.as_deref(), Some("09-01 12:34:56.789"));
    assert_eq!(record.pid, Some(1234));
    assert_eq!(record.tid, Some(5678));
    assert_eq!(record.tag.as_deref(), Some("ActivityManager"));
    assert_eq!(
        record.message,
        "Start proc 4321:com.example/u0a123",
        "colons inside the message must be preserved"
    );
    assert_eq!(record.raw, THREADTIME);
}

#[test]
fn year_prefixed_timestamp_is_accepted() {
    let line = "2024-09-01 12:34:56.789  1234  5678 E AndroidRuntime: FATAL";
    let Some(record) = parse_logcat_threadtime(line, 2) else {
        unreachable!("year-prefixed sample must parse")
    };
    assert_eq!(record.timestamp.as_deref(), Some("2024-09-01 12:34:56.789"));
    assert_eq!(record.level, LogLevel::Error);
}

#[test]
fn uid_variant_is_read() {
    let line = "09-01 12:34:56.789  10123  1234  5678 I Tag: hello";
    let Some(record) = parse_logcat_threadtime(line, 3) else {
        unreachable!("uid sample must parse")
    };
    assert_eq!(record.uid, Some(10123));
    assert_eq!(record.pid, Some(1234));
    assert_eq!(record.tag.as_deref(), Some("Tag"));
}

#[test]
fn uid_name_forms_are_decoded() {
    // `logcat -v threadtime,uid` prints names for system processes.
    for (token, expected) in [
        ("root", 0),
        ("system", 1000),
        ("radio", 1001),
        ("shell", 2000),
        ("u0_a143", 10_143),
        ("u10_a25", 1_010_025),
        ("uid=10143", 10_143),
    ] {
        assert_eq!(parse_uid_token(token), Some(expected), "token {token}");
    }
    assert_eq!(parse_uid_token("nonsense"), None);
    assert_eq!(parse_uid_token(""), None);
}

#[test]
fn threadtime_uid_format_is_parsed_end_to_end() {
    // Verbatim from `logcat -v threadtime,uid` on Android 16.
    let line = "09-25 01:46:48.101 10270  3798 11699 D JavaheapMonitor: Java heap used=3M";
    let Some(record) = parse_logcat_threadtime(line, 1) else {
        unreachable!("threadtime,uid sample must parse")
    };
    assert_eq!(record.uid, Some(10270));
    assert_eq!(record.pid, Some(3798));
    assert_eq!(record.tid, Some(11699));
    assert_eq!(record.level, LogLevel::Debug);
    assert_eq!(record.tag.as_deref(), Some("JavaheapMonitor"));
    assert_eq!(record.message, "Java heap used=3M");
}

#[test]
fn threadtime_uid_format_with_a_name_still_parses() {
    let line = "09-25 01:46:48.240  root  1749  1749 I adbd    : in ShellService";
    let Some(record) = parse_logcat_threadtime(line, 1) else {
        unreachable!("named-uid sample must parse")
    };
    assert_eq!(record.uid, Some(0));
    assert_eq!(record.pid, Some(1749));
    assert_eq!(record.tag.as_deref(), Some("adbd"));
}

#[test]
fn uid_prefix_form_is_read() {
    let line = "09-01 12:34:56.789  uid=10123  1234  5678 I Tag: hello";
    let Some(record) = parse_logcat_threadtime(line, 4) else {
        unreachable!("uid= sample must parse")
    };
    assert_eq!(record.uid, Some(10123));
}

#[test]
fn separator_lines_are_skipped() {
    assert!(parse_logcat("--------- beginning of main", 1).is_none());
    assert!(parse_logcat("--------- beginning of system", 2).is_none());
    assert!(parse_logcat("", 3).is_none());
}

#[test]
fn malformed_threadtime_is_rejected() {
    // Non-numeric pid/tid must not be silently accepted.
    assert!(parse_logcat_threadtime("09-01 12:34:56.789  xx  yy I Tag: msg", 1).is_none());
    // Impossible clock values are rejected.
    assert!(parse_logcat_threadtime("09-01 99:34:56.789  1  2 I Tag: msg", 1).is_none());
}

#[test]
fn brief_line_is_parsed() {
    let line = "W/ActivityManager( 1234): Slow operation";
    let Some(record) = parse_logcat_brief(line, 1) else {
        unreachable!("brief sample must parse")
    };
    assert_eq!(record.level, LogLevel::Warn);
    assert_eq!(record.pid, Some(1234));
    assert_eq!(record.tag.as_deref(), Some("ActivityManager"));
    assert_eq!(record.message, "Slow operation");
    assert_eq!(record.timestamp, None);
}

#[test]
fn brief_without_pid_is_parsed() {
    let Some(record) = parse_logcat_brief("D/Tag: no pid here", 1) else {
        unreachable!("pid-less brief sample must parse")
    };
    assert_eq!(record.pid, None);
    assert_eq!(record.tag.as_deref(), Some("Tag"));
}

#[test]
fn dispatch_prefers_threadtime() {
    let Some(record) = parse_logcat(THREADTIME, 9) else {
        unreachable!("dispatch must parse the threadtime sample")
    };
    assert_eq!(record.timestamp.as_deref(), Some("09-01 12:34:56.789"));
}

#[test]
fn dispatch_falls_back_to_brief() {
    let Some(record) = parse_logcat("E/Tag( 7): boom", 1) else {
        unreachable!("dispatch must fall back to brief")
    };
    assert_eq!(record.level, LogLevel::Error);
}

#[test]
fn message_keeps_internal_indentation() {
    let line = "09-01 12:34:56.789  1  2 I Tag:   indented";
    let Some(record) = parse_logcat_threadtime(line, 1) else {
        unreachable!("sample must parse")
    };
    assert_eq!(record.message, "  indented");
}
