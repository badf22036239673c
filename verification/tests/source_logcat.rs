//! The logcat collector.

use droidlog::parser::LogLevel;
use droidlog::source::logcat::{build_command, LogcatSource};
use droidlog::source::{effective_command, LogSource, LogcatBuffer, SourceOptions};

#[test]
fn default_command_pins_threadtime() {
    let command = build_command(&SourceOptions::unrestricted());
    assert_eq!(command, "logcat -v threadtime -b main,system,crash");
}

#[test]
fn pids_are_pushed_down() {
    let options = SourceOptions {
        pids: vec![1234, 5678],
        ..SourceOptions::default()
    };
    assert_eq!(
        build_command(&options),
        "logcat -v threadtime -b main,system,crash --pid=1234 --pid=5678"
    );
}

#[test]
fn non_positive_pids_are_ignored() {
    let options = SourceOptions {
        pids: vec![0, -1],
        ..SourceOptions::default()
    };
    assert!(!build_command(&options).contains("--pid"));
}

#[test]
fn uid_is_pushed_down_and_preferred_over_pid() {
    let options = SourceOptions {
        uid: Some(10123),
        pids: vec![5063],
        ..SourceOptions::default()
    };
    assert_eq!(
        build_command(&options),
        "logcat -v threadtime -b main,system,crash --uid=10123 --pid=5063"
    );
}

#[test]
fn negative_uid_is_ignored() {
    let options = SourceOptions {
        uid: Some(-1),
        ..SourceOptions::default()
    };
    assert!(!build_command(&options).contains("--uid"));
}

#[test]
fn tags_switch_to_silent_mode_and_are_quoted() {
    let options = SourceOptions {
        tags: vec!["ActivityManager".to_owned(), "My Tag".to_owned()],
        ..SourceOptions::default()
    };
    assert_eq!(
        build_command(&options),
        "logcat -v threadtime -b main,system,crash -s ActivityManager 'My Tag'"
    );
}

#[test]
fn blank_tags_do_not_emit_silent_mode() {
    let options = SourceOptions {
        tags: vec!["   ".to_owned(), String::new()],
        ..SourceOptions::default()
    };
    assert!(!build_command(&options).contains(" -s "));
}

#[test]
fn buffers_can_be_narrowed() {
    let options = SourceOptions {
        buffers: vec![LogcatBuffer::Radio],
        ..SourceOptions::default()
    };
    assert!(build_command(&options).contains("-b radio"));
}

#[test]
fn injection_through_tags_is_neutralised() {
    let options = SourceOptions {
        tags: vec!["x; rm -rf /".to_owned()],
        ..SourceOptions::default()
    };
    let command = build_command(&options);
    assert!(
        command.contains("'x; rm -rf /'"),
        "tag must be quoted, got: {command}"
    );
}

#[test]
fn a_custom_command_replaces_the_built_in_one() {
    let source = LogcatSource::new();
    let options = SourceOptions {
        custom_command: Some("logcat -v threadtime -s MyTag".to_owned()),
        // Ignored on purpose: the custom command wins outright.
        pids: vec![42],
        ..SourceOptions::default()
    };
    assert_eq!(source.command(&options), "logcat -v threadtime -s MyTag");
}

#[test]
fn a_blank_custom_command_falls_back_to_the_built_in_one() {
    let source = LogcatSource::new();
    let options = SourceOptions {
        custom_command: Some("   ".to_owned()),
        ..SourceOptions::default()
    };
    assert_eq!(
        source.command(&options),
        "logcat -v threadtime -b main,system,crash"
    );
}

#[test]
fn threadtime_lines_parse() {
    let source = LogcatSource::new();
    let record = source.parse_line("09-01 12:34:56.789  1  2 I Tag: hi", 1);
    assert_eq!(record.level, LogLevel::Info);
    assert!(record.parsed);
}

#[test]
fn unparseable_lines_are_kept_as_raw_records() {
    // The regression this guards: banners and vendor formats used to be
    // dropped entirely.
    let source = LogcatSource::new();
    for line in [
        "--------- beginning of main",
        "totally unstructured vendor output",
        "",
    ] {
        let record = source.parse_line(line, 7);
        assert_eq!(record.seq, 7);
        assert!(!record.parsed, "expected a raw record for {line:?}");
        assert_eq!(record.raw, line);
        assert_eq!(record.message, line, "the text must survive for display");
        assert_eq!(record.level, LogLevel::Unknown);
    }
}

#[test]
fn effective_command_prefers_the_override() {
    let with = SourceOptions {
        custom_command: Some("dmesg -w".to_owned()),
        ..SourceOptions::default()
    };
    assert_eq!(effective_command(&with, "fallback"), "dmesg -w");
    assert_eq!(
        effective_command(&SourceOptions::default(), "fallback"),
        "fallback"
    );
}
