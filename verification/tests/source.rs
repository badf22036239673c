//! Source metadata and options.

use droidlog::source::{
    all_specs, availability, build, parse_kind, spec, LogSource, LogSourceKind, LogcatBuffer, SourceOptions,
    RECOVERY_REQUIRED_REASON,
};

#[test]
fn every_kind_has_a_spec() {
    for kind in LogSourceKind::all() {
        let spec = spec(kind);
        assert_eq!(spec.kind, kind);
        assert!(!spec.label.is_empty(), "{kind:?} has no label");
        assert!(
            !spec.default_command.is_empty(),
            "{kind:?} has no default command"
        );
    }
}

#[test]
fn all_specs_covers_every_kind_once() {
    assert_eq!(all_specs().len(), LogSourceKind::all().len());
    for kind in LogSourceKind::all() {
        let matches = all_specs().iter().filter(|s| s.kind == kind).count();
        assert_eq!(matches, 1, "{kind:?} should appear exactly once");
    }
}

#[test]
fn kernel_sources_require_root_but_logcat_does_not() {
    assert!(!spec(LogSourceKind::Logcat).requires_root);
    assert!(spec(LogSourceKind::Dmesg).requires_root);
    assert!(spec(LogSourceKind::Kmsg).requires_root);
}

#[test]
fn availability_gates_rooted_and_recovery_sources() {
    // A normal, unrooted device: capture sources are offered, kernel ones
    // are not, and the recovery collector waits for recovery mode.
    let plain = availability(false, false);
    assert_eq!(plain.len(), LogSourceKind::all().len());
    for kind in [
        LogSourceKind::Logcat,
        LogSourceKind::Crash,
        LogSourceKind::Boot,
    ] {
        let entry = plain.iter().find(|entry| entry.spec.kind == kind);
        assert_eq!(entry.map(|entry| entry.available), Some(true), "{kind:?}");
    }
    for kind in [
        LogSourceKind::Dmesg,
        LogSourceKind::Kmsg,
        LogSourceKind::Recovery,
    ] {
        let entry = plain.iter().find(|entry| entry.spec.kind == kind);
        assert_eq!(entry.map(|entry| entry.available), Some(false), "{kind:?}");
        assert!(
            entry.and_then(|entry| entry.unavailable_reason).is_some(),
            "{kind:?} should explain itself"
        );
    }

    // Root unlocks the kernel sources, but not the recovery collector.
    let rooted = availability(true, false);
    for kind in [
        LogSourceKind::Logcat,
        LogSourceKind::Dmesg,
        LogSourceKind::Kmsg,
        LogSourceKind::Crash,
        LogSourceKind::Boot,
    ] {
        let entry = rooted.iter().find(|entry| entry.spec.kind == kind);
        assert_eq!(entry.map(|entry| entry.available), Some(true), "{kind:?}");
    }
    let recovery = rooted
        .iter()
        .find(|entry| entry.spec.kind == LogSourceKind::Recovery);
    assert_eq!(recovery.map(|entry| entry.available), Some(false));

    // A device in recovery mode: only the recovery collector can work, and
    // the reason shown for the others is still the recovery one.
    let in_recovery = availability(false, true);
    let recovery = in_recovery
        .iter()
        .find(|entry| entry.spec.kind == LogSourceKind::Recovery);
    assert_eq!(recovery.map(|entry| entry.available), Some(true));
}

#[test]
fn only_the_recovery_collector_works_in_recovery_mode() {
    for root_available in [false, true] {
        for entry in availability(root_available, true) {
            let recovery = entry.spec.kind == LogSourceKind::Recovery;
            assert_eq!(entry.available, recovery, "{:?}", entry.spec.kind);
            let reason = if recovery { None } else { Some(RECOVERY_REQUIRED_REASON) };
            assert_eq!(entry.unavailable_reason, reason, "{:?}", entry.spec.kind);
        }
    }
}

#[test]
fn only_the_recovery_collector_requires_recovery_mode() {
    for spec in all_specs() {
        assert_eq!(
            spec.requires_recovery,
            spec.kind == LogSourceKind::Recovery,
            "{:?}",
            spec.kind
        );
    }
}

#[test]
fn kind_names_round_trip() {
    for kind in LogSourceKind::all() {
        assert_eq!(LogSourceKind::from_name(&kind.to_string()), Some(kind));
    }
    assert_eq!(
        LogSourceKind::from_name("LOGCAT"),
        Some(LogSourceKind::Logcat)
    );
    assert_eq!(parse_kind("nope").map_err(|e| e.kind()), Err("unknownSource"));
}

#[test]
fn buffer_args_default_and_custom() {
    assert_eq!(
        SourceOptions::unrestricted().buffer_args(),
        vec!["-b".to_owned(), "main,system,crash".to_owned()]
    );

    let radio_only = SourceOptions {
        buffers: vec![LogcatBuffer::Radio],
        ..SourceOptions::default()
    };
    assert_eq!(
        radio_only.buffer_args(),
        vec!["-b".to_owned(), "radio".to_owned()]
    );
}

#[test]
fn build_returns_matching_kind() {
    for kind in LogSourceKind::all() {
        assert_eq!(build(kind).kind(), kind);
    }
}

#[test]
fn default_commands_are_run_without_options() {
    for kind in LogSourceKind::all() {
        assert_eq!(build(kind).command(&SourceOptions::default()), spec(kind).default_command, "{kind:?}");
    }
}
