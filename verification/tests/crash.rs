//! Crash classification.

use droidlog::crash::{classify, classify_record, is_scannable, looks_like_permission_denied, CrashKind};
use droidlog::parser::{LogLevel, LogRecord};
use droidlog::source::LogSourceKind;

fn record(source: LogSourceKind, tag: Option<&str>, message: &str) -> LogRecord {
    let mut record = LogRecord::raw_line(source, 1, message);
    record.tag = tag.map(ToString::to_string);
    record.message = message.to_owned();
    record
}

#[test]
fn kernel_panic_is_recognised() {
    assert_eq!(
        classify("Kernel panic - not syncing: Attempted to kill init!"),
        Some(CrashKind::KernelPanic)
    );
    assert_eq!(
        classify("[    2.345678] Kernel panic - not syncing: Fatal exception"),
        Some(CrashKind::KernelPanic)
    );
}

#[test]
fn a_clean_boot_note_is_not_a_panic() {
    // Some kernels print this at every boot; classifying it would make the
    // crash panel useless on healthy devices.
    assert_eq!(classify("pstore: no kernel panic记录"), None);
    assert_eq!(classify("Last boot: no kernel panic"), None);
}

#[test]
fn oops_and_kernel_bug_are_told_apart() {
    assert_eq!(
        classify("Unable to handle kernel paging request at virtual address 00000000"),
        Some(CrashKind::Oops)
    );
    assert_eq!(classify("Internal error: Oops: 96000004 [#1] PREEMPT SMP"), Some(CrashKind::Oops));
    assert_eq!(
        classify("kernel BUG at mm/slub.c:3413!"),
        Some(CrashKind::KernelBug)
    );
    assert_eq!(
        classify("BUG: unable to handle kernel NULL pointer dereference"),
        Some(CrashKind::KernelBug)
    );
}

#[test]
fn watchdog_is_recognised() {
    assert_eq!(
        classify("watchdog: watchdog0: watchdog did not stop!"),
        Some(CrashKind::Watchdog)
    );
    assert_eq!(
        classify("[  123.456] Watchdog bite! Sending reset"),
        Some(CrashKind::Watchdog)
    );
    assert_eq!(
        classify("watchdog: BUG: soft lockup - CPU#2 stuck for 22s!"),
        Some(CrashKind::Watchdog)
    );
}

#[test]
fn low_memory_kills_are_recognised() {
    assert_eq!(
        classify("lowmemorykiller: Kill 'com.example.app' (1234), adj 900, to free 65536kB"),
        Some(CrashKind::LowMemory)
    );
    assert_eq!(
        classify("lmkd: Kill 'com.example.app' (1234), uid 10123, oom_score_adj 900"),
        Some(CrashKind::LowMemory)
    );
}

#[test]
fn system_server_death_outranks_a_bare_fatal_signal() {
    // A dying system_server prints both; the more specific answer wins.
    assert_eq!(
        classify("WATCHDOG KILLING SYSTEM PROCESS: Blocked in handler on main thread"),
        Some(CrashKind::SystemServer)
    );
    assert_eq!(
        classify("system_server: Fatal signal 11 (SIGSEGV), code 1, fault addr 0x0"),
        Some(CrashKind::SystemServer)
    );
}

#[test]
fn native_crashes_are_recognised() {
    assert_eq!(
        classify("Fatal signal 11 (SIGSEGV), code 1 (SEGV_MAPERR), fault addr 0x0"),
        Some(CrashKind::NativeCrash)
    );
    assert_eq!(
        classify("*** *** *** *** *** *** *** *** *** *** *** *** *** *** *** ***"),
        None // the tombstone banner alone is not decisive
    );
    assert_eq!(classify("backtrace:"), Some(CrashKind::NativeCrash));
    assert_eq!(
        classify("tombstone: /data/tombstones/tombstone_07"),
        Some(CrashKind::NativeCrash)
    );
}

#[test]
fn anr_is_a_family_of_its_own() {
    // Both shapes matter: the application's own line in the crash buffer, and
    // the framework's `am_anr` event. Neither may be reported as a native
    // crash, because an ANR has no signal and no tombstone.
    assert_eq!(classify("ANR in com.example.demo"), Some(CrashKind::Anr));
    assert_eq!(
        classify("am_anr: [1234,0,com.example.demo,10201,Input dispatching timed out]"),
        Some(CrashKind::Anr)
    );
    assert_eq!(classify("Application Not Responding: com.example.demo"), Some(CrashKind::Anr));
    assert_eq!(CrashKind::Anr.id(), "anr");
    assert_eq!(CrashKind::Anr.badge(), 'A');
    assert_eq!(CrashKind::from_name("anr"), Some(CrashKind::Anr));
    assert_eq!(CrashKind::all().len(), 8);
}

#[test]
fn ordinary_log_lines_are_not_crashes() {
    for line in [
        "ActivityManager: Start proc 1234:com.example/u0a123 for activity",
        "chatty: uid=10123 expire 12 lines",
        "OpenGLRenderer: Davey! duration=1234ms",
        "PhoneWindowManager: mSecureLockDisplayMode=0",
        "WifiService: mWifiLogProto.txBad=0",
    ] {
        assert_eq!(classify(line), None, "{line} must not classify");
    }
}

#[test]
fn classification_reads_the_tag_as_well_as_the_message() {
    let record = record(
        LogSourceKind::Logcat,
        Some("Kernel panic"),
        "not syncing: Fatal exception",
    );
    assert_eq!(classify_record(&record), Some(CrashKind::KernelPanic));
}

#[test]
fn record_classification_covers_unparsed_lines() {
    // A panic line that the grammar cannot parse still has to be classified:
    // this is why the raw text is scanned for unparsed records.
    let record = record(
        LogSourceKind::Kmsg,
        None,
        "<0>[    1.234567] Kernel panic - not syncing: hard lockup",
    );
    assert!(!record.parsed);
    assert_eq!(classify_record(&record), Some(CrashKind::KernelPanic));
}

#[test]
fn verbosity_levels_are_skipped_but_unknown_is_not() {
    assert!(is_scannable(LogLevel::Info));
    assert!(is_scannable(LogLevel::Warn));
    assert!(is_scannable(LogLevel::Unknown));
    assert!(!is_scannable(LogLevel::Verbose));
    assert!(!is_scannable(LogLevel::Debug));
}

#[test]
fn permission_errors_are_distinguished_from_missing_files() {
    assert!(looks_like_permission_denied("cat: /sys/fs/pstore/x: Permission denied"));
    assert!(looks_like_permission_denied("dmesg: Operation not permitted"));
    assert!(!looks_like_permission_denied("cat: /proc/last_kmsg: No such file or directory"));
    assert!(!looks_like_permission_denied(""));
}

#[test]
fn ids_round_trip_and_are_unique() {
    let mut seen = Vec::new();
    for kind in CrashKind::all() {
        assert_eq!(CrashKind::from_name(kind.id()), Some(kind));
        assert_eq!(kind.badge().len_utf8(), 1);
        assert!(!kind.label().is_empty());
        assert!(!seen.contains(&kind.id()), "duplicate id {}", kind.id());
        seen.push(kind.id());
    }
    assert_eq!(CrashKind::from_name("nonsense"), None);
}
