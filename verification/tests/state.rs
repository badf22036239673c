//! Shared state.

use droidlog::error::Result;
use droidlog::filter::{FilterField, FilterOp, FilterRule};
use droidlog::parser::{LogLevel, LogRecord};
use droidlog::source::LogSourceKind;
use droidlog::state::AppState;

fn record(seq: u64) -> LogRecord {
    LogRecord::new(LogSourceKind::Logcat, seq, "raw")
}

#[test]
fn sequence_numbers_are_unique_and_monotonic() {
    let mut state = AppState::new();
    let first = state.next_seq();
    let second = state.next_seq();
    assert!(second > first);
}

#[test]
fn session_ids_are_unique() {
    let mut state = AppState::new();
    assert_ne!(state.next_session_id(), state.next_session_id());
}

#[test]
fn filters_start_empty_and_accept_all() -> Result<()> {
    let mut state = AppState::new();
    assert!(state.filters().is_empty());
    assert!(state.compiled_filters()?.matches(&record(1)));
    Ok(())
}

#[test]
fn setting_filters_bumps_the_version() -> Result<()> {
    let mut state = AppState::new();
    let before = state.filters_version();
    state.set_filters(vec![FilterRule::min_level(LogLevel::Warn)])?;
    assert_eq!(state.filters_version(), before + 1);
    Ok(())
}

#[test]
fn invalid_filters_are_rejected_without_clobbering_state() -> Result<()> {
    let mut state = AppState::new();
    state.set_filters(vec![FilterRule::min_level(LogLevel::Warn)])?;
    let version = state.filters_version();

    let bad = vec![FilterRule::new(
        "bad",
        FilterField::Message,
        FilterOp::Regex,
        "([unclosed",
    )];
    assert_eq!(
        state.set_filters(bad).map_err(|e| e.kind()),
        Err("invalidFilter")
    );

    assert_eq!(state.filters_version(), version, "version must not move");
    assert_eq!(state.filters().len(), 1, "previous rules must survive");
    Ok(())
}

#[test]
fn session_records_reports_unknown_sessions() {
    let mut state = AppState::new();
    assert_eq!(
        state
            .session_records("nope", None)
            .map_err(|e| e.kind()),
        Err("sessionNotFound")
    );
    assert_eq!(state.session_count(), 0);
    assert!(state.session_ids().is_empty());
}
