//! Kernel line parsers.

use droidlog::parser::{parse_dmesg, parse_kernel, parse_kmsg, LogLevel, LogRecord, UptimeUnit};
use droidlog::source::LogSourceKind;

/// The uptime of a record as a number of seconds.
fn seconds(record: &LogRecord) -> Option<f64> {
    let uptime = record.uptime.as_ref()?;
    let number = uptime.text.parse::<f64>().ok()?;
    Some(match uptime.unit {
        UptimeUnit::Seconds => number,
        UptimeUnit::Micros => number / 1_000_000.0,
    })
}

#[test]
fn dmesg_with_printk_level_and_bracket() {
    let line = "<6>[    1.234567] usb 1-1: new high-speed USB device number 2";
    let Some(record) = parse_dmesg(line, 1) else {
        unreachable!("sample must parse")
    };
    assert_eq!(record.level, LogLevel::Info);
    assert_eq!(seconds(&record), Some(1.234_567));
    assert_eq!(record.tag.as_deref(), Some("usb 1-1"));
    assert_eq!(record.message, "new high-speed USB device number 2");
    assert_eq!(record.source, LogSourceKind::Dmesg);
}

#[test]
fn dmesg_error_level_maps_from_printk_digit() {
    let line = "<3>[   12.345678] binder: transaction failed";
    let Some(record) = parse_dmesg(line, 2) else {
        unreachable!("sample must parse")
    };
    assert_eq!(record.level, LogLevel::Error);
    assert_eq!(record.tag.as_deref(), Some("binder"));
    assert_eq!(record.message, "transaction failed");
}

#[test]
fn dmesg_without_prefix_defaults_to_info() {
    let line = "[    0.000000] Linux version 5.10.0";
    let Some(record) = parse_dmesg(line, 3) else {
        unreachable!("sample must parse")
    };
    assert_eq!(record.level, LogLevel::Info);
    assert_eq!(record.message, "Linux version 5.10.0");
    assert_eq!(record.tag, None);
}

#[test]
fn dmesg_skips_blank_and_non_bracketed_lines() {
    assert!(parse_dmesg("   ", 1).is_none());
    assert!(parse_dmesg("", 1).is_none());
    // No uptime bracket => not dmesg.
    assert!(parse_dmesg("plain text line", 1).is_none());
}

#[test]
fn prose_with_a_colon_is_not_treated_as_a_tag() {
    let line = "[    1.000000] Some long sentence that is not a tag: and more";
    let Some(record) = parse_dmesg(line, 1) else {
        unreachable!("sample must parse")
    };
    assert_eq!(record.tag, None);
    assert!(record.message.starts_with("Some long sentence"));
}

#[test]
fn kmsg_record_is_parsed() {
    let line = "6,1234,567890,-;usb 1-1: new device";
    let Some(record) = parse_kmsg(line, 5) else {
        unreachable!("sample must parse")
    };
    assert_eq!(record.level, LogLevel::Info);
    assert_eq!(seconds(&record), Some(0.567_89));
    assert_eq!(record.source, LogSourceKind::Kmsg);
    assert_eq!(record.tag.as_deref(), Some("usb 1-1"));
    assert_eq!(record.message, "new device");
}

#[test]
fn kmsg_emergency_level_maps_to_error() {
    let line = "3,100,2000000,-;Out of memory";
    let Some(record) = parse_kmsg(line, 6) else {
        unreachable!("sample must parse")
    };
    assert_eq!(record.level, LogLevel::Error);
    assert_eq!(seconds(&record), Some(2.0));
}

#[test]
fn kmsg_rejects_non_numeric_headers() {
    assert!(parse_kmsg("not,a,number,x;body", 1).is_none());
    assert!(parse_kmsg("1,2,3;body", 1).is_none(), "three fields");
    assert!(parse_kmsg("no separator at all", 1).is_none());
}

#[test]
fn every_number_of_a_kmsg_header_is_a_number() {
    assert!(parse_kmsg("6,1234,abc,-;usb 1-1: new device", 5).is_none());
    assert!(parse_kmsg("6,abc,1234,-;usb 1-1: new device", 5).is_none());
    assert!(parse_kmsg("256,1,1234,-;usb 1-1: new device", 5).is_none());
    assert!(parse_kmsg(" 6 , 7 , 8 ,-;usb 1-1: new device", 5).is_some());
}

#[test]
fn dmesg_does_not_consume_kmsg_lines() {
    // The two grammars stay independent: no cross-fallback inside them.
    assert!(parse_dmesg("7,55,1234567,-;debug only", 1).is_none());
    assert!(parse_kmsg("<4>[   10.000000] warning: something", 1).is_none());
}

#[test]
fn dispatcher_tries_native_format_first() {
    let dmesg_line = "<4>[   10.000000] warning: something";
    let Some(record) = parse_kernel(dmesg_line, LogSourceKind::Dmesg, 7) else {
        unreachable!("dmesg sample must parse")
    };
    assert_eq!(record.level, LogLevel::Warn);
    assert_eq!(seconds(&record), Some(10.0));
    assert_eq!(record.source, LogSourceKind::Dmesg);
}

#[test]
fn dispatcher_stamps_requested_source_on_fallback() {
    // A dmesg-shaped line inside a kmsg session still reports the session source.
    let dmesg_line = "<4>[   10.000000] warning: something";
    let Some(record) = parse_kernel(dmesg_line, LogSourceKind::Kmsg, 8) else {
        unreachable!("fallback must parse")
    };
    assert_eq!(record.source, LogSourceKind::Kmsg);
}

#[test]
fn dispatcher_returns_none_for_garbage() {
    assert!(parse_kernel("total garbage", LogSourceKind::Dmesg, 1).is_none());
    assert!(parse_kernel("", LogSourceKind::Kmsg, 1).is_none());
}
