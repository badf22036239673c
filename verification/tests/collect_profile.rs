//! What a device can give.

use droidlog::collect::profile::{era_of, parse_kernel_release, parse_logcat_buffers, DeviceProfile, KernelEra};

#[test]
fn kernel_releases_are_parsed_from_real_shapes() {
    // The exact string a Xiaomi MIX 4 on a 5.10 QGKI kernel reports.
    assert_eq!(
        parse_kernel_release("5.10.302-qgki-odin-QiuChenly\n"),
        Some((5, 10))
    );
    assert_eq!(parse_kernel_release("4.14.190-gabcdef"), Some((4, 14)));
    assert_eq!(parse_kernel_release("3.4.0"), Some((3, 4)));
    assert_eq!(parse_kernel_release("6.1.25-android14"), Some((6, 1)));
    assert_eq!(parse_kernel_release("  5.15.94  \n"), Some((5, 15)));
}

#[test]
fn unparsable_kernel_output_is_none() {
    assert_eq!(parse_kernel_release(""), None);
    assert_eq!(parse_kernel_release("\n \n"), None);
    assert_eq!(parse_kernel_release("uname: not found"), None);
    assert_eq!(parse_kernel_release("Linux"), None);
}

#[test]
fn era_splits_at_3_4() {
    assert_eq!(era_of(Some((3, 4))), KernelEra::LegacyLastKmsg);
    assert_eq!(era_of(Some((3, 0))), KernelEra::LegacyLastKmsg);
    assert_eq!(era_of(Some((3, 5))), KernelEra::Pstore);
    assert_eq!(era_of(Some((5, 10))), KernelEra::Pstore);
    assert_eq!(era_of(None), KernelEra::Unknown);
    assert!(KernelEra::Pstore.reads_pstore());
    assert!(!KernelEra::Pstore.reads_last_kmsg());
    assert!(KernelEra::LegacyLastKmsg.reads_last_kmsg());
    assert!(!KernelEra::LegacyLastKmsg.reads_pstore());
    assert!(KernelEra::Unknown.reads_pstore() && KernelEra::Unknown.reads_last_kmsg());
}

#[test]
fn logcat_buffers_are_read_from_g_output() {
    let text = "main: ring buffer is 2 MiB (1 MiB consumed, 9 MiB readable), max entry is 5120 B, max payload is 4068 B\n\
                system: ring buffer is 2 MiB (1 MiB consumed, 6 MiB readable), max entry is 5120 B, max payload is 4068 B\n\
                crash: ring buffer is 2 MiB (512 KiB consumed, 666 B readable), max entry is 5120 B, max payload is 4068 B\n\
                kernel: ring buffer is 2 MiB (846 KiB consumed, 2 MiB readable), max entry is 5120 B, max payload is 4068 B\n";
    assert_eq!(
        parse_logcat_buffers(text),
        vec!["main", "system", "crash", "kernel"]
    );
}

#[test]
fn logcat_errors_do_not_invent_buffers() {
    // A failed `logcat -g` on a device without the buffer must not register one.
    assert!(parse_logcat_buffers("logcat: Logcat read failure: No such file or directory\n").is_empty());
    assert!(parse_logcat_buffers("").is_empty());
    assert!(parse_logcat_buffers("usage: logcat [options] [filterspecs]\n").is_empty());
}

#[test]
fn a_known_buffer_list_decides_availability() {
    let profile = DeviceProfile {
        kernel_raw: Some("5.10.302-qgki-odin".to_owned()),
        kernel: Some((5, 10)),
        era: KernelEra::Pstore,
        logcat_buffers: vec!["main".to_owned(), "system".to_owned(), "crash".to_owned(), "kernel".to_owned()],
        notes: Vec::new(),
    };
    assert!(profile.has_buffer("crash"));
    assert!(profile.has_buffer("kernel"));
    // The device really has no events buffer; asking for it fails.
    assert!(!profile.has_buffer("events"));
    assert_eq!(profile.buffers_label(), "main / system / crash / kernel");
}

#[test]
fn an_unknown_buffer_list_still_probes_the_standard_buffers() {
    let profile = DeviceProfile::unknown("no answer");
    assert!(profile.has_buffer("crash"));
    assert!(profile.has_buffer("system"));
    assert!(profile.has_buffer("main"));
    // But not a speculative one.
    assert!(!profile.has_buffer("security"));
    assert!(profile.buffers_label().contains("未知"));
}
