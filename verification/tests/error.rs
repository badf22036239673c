//! Errors: kinds, details and conversions.

use droidlog::error::{DroidLogError, Result};

#[test]
fn kind_and_detail_are_stable() {
    let err = DroidLogError::command_failed("adb devices", 1, "boom");
    assert_eq!(err.kind(), "adbCommandFailed");
    assert_eq!(err.detail().as_deref(), Some("boom"));
    assert!(!err.is_environmental());
}

#[test]
fn environmental_errors_are_classified() {
    let err = DroidLogError::AdbUnavailable("not found".to_owned());
    assert!(err.is_environmental());
    assert_eq!(err.detail(), None);
}

#[test]
fn io_errors_convert_via_question_mark() {
    fn fallible() -> Result<()> {
        Err(std::io::Error::new(std::io::ErrorKind::NotFound, "gone"))?;
        Ok(())
    }
    assert_eq!(fallible().map_err(|e| e.kind()), Err("io"));
}
