//! Sessions.

use droidlog::process::{now_ms, SessionStatus};

#[test]
fn status_activity_flag() {
    assert!(SessionStatus::Starting.is_active());
    assert!(SessionStatus::Running.is_active());
    assert!(!SessionStatus::Stopped.is_active());
    assert!(!SessionStatus::Failed("boom".to_owned()).is_active());
}

#[test]
fn now_ms_is_after_the_epoch() {
    assert!(now_ms() > 0);
}
