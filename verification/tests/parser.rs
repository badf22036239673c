//! Levels and records.

use droidlog::parser::{LogLevel, LogRecord};
use droidlog::source::LogSourceKind;

#[test]
fn logcat_letters_map_to_levels() {
    assert_eq!(LogLevel::from_logcat_char('V'), LogLevel::Verbose);
    assert_eq!(LogLevel::from_logcat_char('d'), LogLevel::Debug);
    assert_eq!(LogLevel::from_logcat_char('I'), LogLevel::Info);
    assert_eq!(LogLevel::from_logcat_char('W'), LogLevel::Warn);
    assert_eq!(LogLevel::from_logcat_char('E'), LogLevel::Error);
    assert_eq!(LogLevel::from_logcat_char('F'), LogLevel::Fatal);
    assert_eq!(LogLevel::from_logcat_char('S'), LogLevel::Unknown);
}

#[test]
fn kernel_digits_follow_printk_levels() {
    assert_eq!(LogLevel::from_kernel_digit(0), LogLevel::Error);
    assert_eq!(LogLevel::from_kernel_digit(3), LogLevel::Error);
    assert_eq!(LogLevel::from_kernel_digit(4), LogLevel::Warn);
    assert_eq!(LogLevel::from_kernel_digit(6), LogLevel::Info);
    assert_eq!(LogLevel::from_kernel_digit(7), LogLevel::Debug);
}

#[test]
fn packed_facility_and_severity_are_reduced_to_severity() {
    // Observed on a Xiaomi kernel: `<12>` is facility 1 + severity 4 (warn).
    assert_eq!(LogLevel::from_kernel_digit(12), LogLevel::Warn);
    // `<14>` = facility 1 + severity 6 (info).
    assert_eq!(LogLevel::from_kernel_digit(14), LogLevel::Info);
    // `<9>` = facility 1 + severity 1 (alert) -> error.
    assert_eq!(LogLevel::from_kernel_digit(9), LogLevel::Error);
    // Bare severities are unaffected by the reduction.
    for digit in 0..=7u8 {
        assert_eq!(LogLevel::from_kernel_digit(digit), LogLevel::from_kernel_digit(digit % 8));
    }
}

#[test]
fn min_level_filtering_keeps_unknown() {
    assert!(LogLevel::Warn.passes_min(LogLevel::Warn));
    assert!(LogLevel::Error.passes_min(LogLevel::Warn));
    assert!(!LogLevel::Info.passes_min(LogLevel::Warn));
    assert!(LogLevel::Unknown.passes_min(LogLevel::Fatal));
}

#[test]
fn names_round_trip_through_from_name() {
    for level in [
        LogLevel::Verbose,
        LogLevel::Debug,
        LogLevel::Info,
        LogLevel::Warn,
        LogLevel::Error,
        LogLevel::Fatal,
        LogLevel::Unknown,
    ] {
        assert_eq!(LogLevel::from_name(&level.to_string()), Some(level));
    }
    assert_eq!(LogLevel::from_name("W"), Some(LogLevel::Warn));
    assert_eq!(LogLevel::from_name("nope"), None);
}

#[test]
fn export_line_renders_placeholders_for_missing_fields() {
    let mut record = LogRecord::new(LogSourceKind::Dmesg, 1, "x");
    record.message = "hello".to_owned();
    assert_eq!(record.to_export_line(), "- ? - - -: hello");
}
