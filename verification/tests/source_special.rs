//! The orchestrated collectors.

use droidlog::source::special::SpecialSource;
use droidlog::source::{LogSource, LogSourceKind, SourceOptions};

#[test]
fn orchestrated_sources_parse_both_grammars() {
    let source = SpecialSource::new(LogSourceKind::Crash);

    // logcat -L -d output
    let logcat = source.parse_line("05-01 10:00:00.123  1234  1300 E AndroidRuntime: FATAL EXCEPTION: main", 1);
    assert!(logcat.parsed);
    assert_eq!(logcat.source, LogSourceKind::Crash);
    assert_eq!(logcat.pid, Some(1234));
    assert_eq!(logcat.tag.as_deref(), Some("AndroidRuntime"));

    // raw kernel text from pstore
    let kernel = source.parse_line("[    1.234567] Kernel panic - not syncing: Fatal exception", 2);
    assert!(kernel.parsed, "kernel text must parse");
    assert_eq!(kernel.source, LogSourceKind::Crash);
    assert!(kernel.uptime.is_some());

    // anything else is preserved verbatim rather than dropped
    let raw = source.parse_line("-- bootloader: unlocked", 3);
    assert!(!raw.parsed);
    assert_eq!(raw.source, LogSourceKind::Crash);
    assert!(raw.raw.contains("bootloader"));
}

#[test]
fn every_orchestrated_kind_has_a_spec_and_no_custom_command() {
    for kind in [
        LogSourceKind::Crash,
        LogSourceKind::Boot,
        LogSourceKind::Recovery,
    ] {
        let source = SpecialSource::new(kind);
        assert_eq!(source.kind(), kind);
        assert_eq!(source.spec().kind, kind);
        assert!(!source.spec().supports_custom_command);
        assert!(!source.command(&SourceOptions::unrestricted()).is_empty());
    }
}
