//! Filter rules and compiled sets.

use droidlog::filter::{FilterField, FilterOp, FilterRule, FilterSet};
use droidlog::parser::{LogLevel, LogRecord};
use droidlog::process::now_ms;
use droidlog::source::LogSourceKind;

fn record(level: LogLevel, tag: &str, message: &str) -> LogRecord {
    let mut record = LogRecord::new(LogSourceKind::Logcat, 1, "raw");
    record.level = level;
    record.tag = Some(tag.to_owned());
    record.message = message.to_owned();
    record.pid = Some(1234);
    record
}

fn compile_set(rules: Vec<FilterRule>) -> FilterSet {
    match FilterSet::compile(&rules) {
        Ok(set) => set,
        Err(err) => unreachable!("rules should compile: {err:?}"),
    }
}

#[test]
fn empty_set_accepts_everything() {
    let set = FilterSet::accept_all();
    assert!(set.is_empty());
    assert!(set.matches(&record(LogLevel::Verbose, "Any", "text")));
}

#[test]
fn contains_is_case_insensitive_by_default() {
    let set = compile_set(vec![FilterRule::new(
        "r1",
        FilterField::Message,
        FilterOp::Contains,
        "TIMEOUT",
    )]);
    assert!(set.matches(&record(LogLevel::Info, "Net", "connect timeout")));
    assert!(!set.matches(&record(LogLevel::Info, "Net", "connected")));
}

#[test]
fn case_sensitive_rule_respects_case() {
    let mut rule = FilterRule::new("r1", FilterField::Tag, FilterOp::Contains, "Activity");
    rule.case_sensitive = true;
    let set = compile_set(vec![rule]);
    assert!(set.matches(&record(LogLevel::Info, "ActivityManager", "x")));
    assert!(!set.matches(&record(LogLevel::Info, "activitymanager", "x")));
}

#[test]
fn min_level_keeps_severity_and_above() {
    let set = compile_set(vec![FilterRule::min_level(LogLevel::Warn)]);
    assert!(!set.matches(&record(LogLevel::Info, "T", "x")));
    assert!(set.matches(&record(LogLevel::Warn, "T", "x")));
    assert!(set.matches(&record(LogLevel::Error, "T", "x")));
    assert!(
        set.matches(&record(LogLevel::Unknown, "T", "x")),
        "unclassified records must not be hidden"
    );
}

#[test]
fn rules_are_conjunctive() {
    let set = compile_set(vec![
        FilterRule::min_level(LogLevel::Error),
        FilterRule::new("r2", FilterField::Tag, FilterOp::Equals, "AndroidRuntime"),
    ]);
    assert!(set.matches(&record(LogLevel::Error, "AndroidRuntime", "boom")));
    assert!(!set.matches(&record(LogLevel::Info, "AndroidRuntime", "boom")));
    assert!(!set.matches(&record(LogLevel::Error, "Other", "boom")));
}

#[test]
fn disabled_rules_are_ignored() {
    let mut rule = FilterRule::min_level(LogLevel::Fatal);
    rule.enabled = false;
    let set = compile_set(vec![rule]);
    assert!(set.is_empty());
    assert!(set.matches(&record(LogLevel::Verbose, "T", "x")));
}

#[test]
fn regex_matches_and_is_case_insensitive_by_default() {
    let set = compile_set(vec![FilterRule::new(
        "r1",
        FilterField::Message,
        FilterOp::Regex,
        r"pid\s+\d+",
    )]);
    assert!(set.matches(&record(LogLevel::Info, "T", "start PID 42 done")));
    assert!(!set.matches(&record(LogLevel::Info, "T", "nothing here")));
}

#[test]
fn numeric_fields_are_compared_as_text() {
    let set = compile_set(vec![FilterRule::new(
        "r1",
        FilterField::Pid,
        FilterOp::Equals,
        "1234",
    )]);
    assert!(set.matches(&record(LogLevel::Info, "T", "x")));

    let other = compile_set(vec![FilterRule::new(
        "r1",
        FilterField::Pid,
        FilterOp::Equals,
        "9999",
    )]);
    assert!(!other.matches(&record(LogLevel::Info, "T", "x")));
}

#[test]
fn in_operator_checks_membership() {
    let set = compile_set(vec![FilterRule::new(
        "r1",
        FilterField::Tag,
        FilterOp::In,
        "ActivityManager, AndroidRuntime ,binder",
    )]);
    assert!(set.matches(&record(LogLevel::Info, "binder", "x")));
    assert!(set.matches(&record(LogLevel::Info, "androidruntime", "x")));
    assert!(!set.matches(&record(LogLevel::Info, "Other", "x")));
}

#[test]
fn absent_field_satisfies_negative_operators_only() {
    let mut bare = record(LogLevel::Info, "T", "x");
    bare.tag = None;

    let negative = compile_set(vec![FilterRule::new(
        "r1",
        FilterField::Tag,
        FilterOp::NotContains,
        "Activity",
    )]);
    assert!(negative.matches(&bare));

    let positive = compile_set(vec![FilterRule::new(
        "r1",
        FilterField::Tag,
        FilterOp::Contains,
        "Activity",
    )]);
    assert!(!positive.matches(&bare));
}

#[test]
fn source_field_is_matchable() {
    let set = compile_set(vec![FilterRule::new(
        "r1",
        FilterField::Source,
        FilterOp::Equals,
        "logcat",
    )]);
    assert!(set.matches(&record(LogLevel::Info, "T", "x")));

    let kernel = compile_set(vec![FilterRule::new(
        "r1",
        FilterField::Source,
        FilterOp::Equals,
        "dmesg",
    )]);
    assert!(!kernel.matches(&record(LogLevel::Info, "T", "x")));
}

#[test]
fn invalid_regex_is_rejected() {
    let rules = vec![FilterRule::new(
        "r1",
        FilterField::Message,
        FilterOp::Regex,
        "([unclosed",
    )];
    assert_eq!(
        FilterSet::compile(&rules).map(|_| ()).map_err(|e| e.kind()),
        Err("invalidFilter")
    );
}

#[test]
fn invalid_level_is_rejected() {
    let rules = vec![FilterRule::new(
        "r1",
        FilterField::Level,
        FilterOp::MinLevel,
        "shouting",
    )];
    assert_eq!(
        FilterSet::compile(&rules).map(|_| ()).map_err(|e| e.kind()),
        Err("invalidFilter")
    );
}

#[test]
fn empty_value_is_rejected_for_string_operators() {
    let rules = vec![FilterRule::new(
        "r1",
        FilterField::Message,
        FilterOp::Contains,
        "",
    )];
    assert_eq!(
        FilterSet::compile(&rules).map(|_| ()).map_err(|e| e.kind()),
        Err("invalidFilter")
    );
}

#[test]
fn apply_preserves_order() {
    let set = compile_set(vec![FilterRule::min_level(LogLevel::Warn)]);
    let records = vec![
        record(LogLevel::Info, "T", "a"),
        record(LogLevel::Warn, "T", "b"),
        record(LogLevel::Error, "T", "c"),
    ];
    let kept: Vec<&str> = set
        .apply(&records)
        .iter()
        .map(|record| record.message.as_str())
        .collect();
    assert_eq!(kept, vec!["b", "c"]);
}

#[test]
fn levels_can_be_selected_as_a_set() {
    // Requirement: "filter by log level (I/D/W/E/F)". `In` is what the level
    // multi-select compiles to.
    let set = compile_set(vec![FilterRule::new(
        "levels",
        FilterField::Level,
        FilterOp::In,
        "info,warn,error",
    )]);
    assert!(set.matches(&record(LogLevel::Info, "T", "x")));
    assert!(set.matches(&record(LogLevel::Warn, "T", "x")));
    assert!(set.matches(&record(LogLevel::Error, "T", "x")));
    assert!(!set.matches(&record(LogLevel::Debug, "T", "x")));
    assert!(!set.matches(&record(LogLevel::Fatal, "T", "x")));
}

#[test]
fn a_rolling_window_keeps_recent_records_only() {
    let set = compile_set(vec![FilterRule::new(
        "window",
        FilterField::Received,
        FilterOp::WithinLast,
        "30",
    )]);

    let mut fresh = record(LogLevel::Info, "T", "x");
    fresh.received_at_ms = now_ms();
    assert!(set.matches(&fresh), "a just-received record is inside the window");

    let mut old = record(LogLevel::Info, "T", "x");
    old.received_at_ms = now_ms().saturating_sub(60_000);
    assert!(!set.matches(&old), "a minute-old record is outside 30 s");
}

#[test]
fn a_zero_or_unparseable_window_is_rejected() {
    for value in ["0", "abc", "", "-5"] {
        let rules = vec![FilterRule::new(
            "window",
            FilterField::Received,
            FilterOp::WithinLast,
            value,
        )];
        assert_eq!(
            FilterSet::compile(&rules).map(|_| ()).map_err(|e| e.kind()),
            Err("invalidFilter"),
            "value {value:?} must be rejected"
        );
    }
}
