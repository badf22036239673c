//! Reports of collections, and the crashes recognised in them.

use droidlog::collect::ingest::push_crashes;
use droidlog::collect::probe::{ProbeOutcome, ProbeStatus};
use droidlog::collect::{detail_of, settle_status, CollectionReport, EVENT_COLLECT_REPORT, EVENT_CRASH};
use droidlog::parser::{LogLevel, LogRecord};
use droidlog::process::SessionStatus;
use droidlog::source::LogSourceKind;

fn outcome(id: &str, status: ProbeStatus, records: usize) -> ProbeOutcome {
    ProbeOutcome {
        id: id.to_owned(),
        label: id.to_owned(),
        command: format!("cmd {id}"),
        status,
        records,
        files: Vec::new(),
        detail: None,
        hint: status.hint().map(str::to_owned),
    }
}

#[test]
fn report_counts_sources_and_records() {
    let report = CollectionReport::new(
        "s1".to_owned(),
        LogSourceKind::Crash,
        vec![
            outcome("a", ProbeStatus::Found, 12),
            outcome("b", ProbeStatus::Empty, 0),
            outcome("c", ProbeStatus::Denied, 0),
        ],
        7,
    );
    assert_eq!(report.sources_found, 1);
    assert_eq!(report.records, 12);
    assert!(report.failure.is_none());
    assert_eq!(report.found_labels(), vec!["a"]);
    assert!(report.hints().iter().any(|hint| hint.contains("Root")));
}

#[test]
fn only_probes_that_produced_records_are_named() {
    let report = CollectionReport::new(
        "s1".to_owned(),
        LogSourceKind::Crash,
        vec![outcome("a", ProbeStatus::Found, 0), outcome("b", ProbeStatus::Found, 1)],
        7,
    );
    assert_eq!(report.found_labels(), vec!["b"]);
    assert_eq!(report.sources_found, 1);
}

#[test]
fn a_healthy_device_is_not_a_failure() {
    // Nothing crashed since boot: the buffers exist and are empty.
    let report = CollectionReport::new(
        "s2".to_owned(),
        LogSourceKind::Crash,
        vec![
            outcome("crash-buffer", ProbeStatus::Empty, 0),
            outcome("tombstone-dir", ProbeStatus::Missing, 0),
        ],
        1,
    );
    assert!(report.failure.is_none());
    assert!(matches!(settle_status(&report), SessionStatus::Stopped));
}

#[test]
fn no_readable_source_is_a_failure_with_a_reason() {
    let report = CollectionReport::new(
        "s3".to_owned(),
        LogSourceKind::Boot,
        vec![
            outcome("boot-dmesg", ProbeStatus::Restricted, 0),
            outcome("boot-last-kmsg", ProbeStatus::Missing, 0),
        ],
        1,
    );
    let failure = report.failure.clone().unwrap_or_default();
    assert!(failure.contains("没有可读取的日志源"));
    assert!(matches!(settle_status(&report), SessionStatus::Failed(_)));
}

#[test]
fn crash_entries_are_only_pushed_for_scannable_levels() {
    let mut record = LogRecord::raw_line(LogSourceKind::Crash, 5, "kernel panic - not syncing");
    record.level = LogLevel::Error;
    let mut out = Vec::new();
    push_crashes(&record, &mut out);
    assert_eq!(out.len(), 1);
    assert_eq!(out[0].seq, 5);

    // Verbose rows are skipped: the classifier would otherwise match the
    // word "panic" inside ordinary chatter.
    let mut quiet = LogRecord::raw_line(LogSourceKind::Crash, 6, "kernel panic - not syncing");
    quiet.level = LogLevel::Verbose;
    let mut out = Vec::new();
    push_crashes(&quiet, &mut out);
    assert!(out.is_empty());
}

#[test]
fn detail_keeps_the_first_useful_line_only() {
    assert_eq!(detail_of("\n  \nls: nothing here\nmore"), Some("ls: nothing here".to_owned()));
    assert_eq!(detail_of("   "), None);
}

#[test]
fn mod_event_names_are_namespaced() {
    assert!(EVENT_CRASH.starts_with("droidlog://"));
    assert!(EVENT_COLLECT_REPORT.starts_with("droidlog://"));
    assert_ne!(EVENT_CRASH, EVENT_COLLECT_REPORT);
}
