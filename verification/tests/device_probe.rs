//! Device properties, process ids and package names.

use droidlog::device::probe::{parse_pids, parse_props, parse_uid_from_dumpsys, validate_package};

#[test]
fn props_parse_version_and_sdk() {
    let (version, sdk) = parse_props("14\n34\n");
    assert_eq!(version.as_deref(), Some("14"));
    assert_eq!(sdk, Some(34));
}

#[test]
fn props_tolerate_missing_second_line() {
    let (version, sdk) = parse_props("14\n");
    assert_eq!(version.as_deref(), Some("14"));
    assert_eq!(sdk, None);
}

#[test]
fn props_treat_blank_release_as_unknown() {
    let (version, sdk) = parse_props("\n34\n");
    assert_eq!(version, None);
    assert_eq!(sdk, Some(34));
}

#[test]
fn props_reject_shell_errors_masquerading_as_a_version() {
    // Measured on a Nexus 4 whose `adb shell` runs bash without getprop in
    // PATH: the error arrives on stdout and used to be shown as the version.
    let (version, sdk) = parse_props("/bin/bash:行1: getprop：未找到命令\n/bin/bash:行1: getprop：未找到命令\n");
    assert_eq!(version, None);
    assert_eq!(sdk, None);
    let (version, _) = parse_props("getprop: not found\n");
    assert_eq!(version, None);
}

#[test]
fn props_accept_every_real_release_shape() {
    for release in ["4.4.2", "13", "12L", "14QPR1", "9"] {
        let (version, _) = parse_props(&format!("{release}\n33\n"));
        assert_eq!(version.as_deref(), Some(release), "{release}");
    }
    // Not plausible: empty, too long, no digits, leading dot.
    for bad in ["", ".", "..............x", "not-a-version", ".13"] {
        let (version, _) = parse_props(&format!("{bad}\n"));
        assert_eq!(version, None, "{bad}");
    }
}

#[test]
fn props_reject_a_nonsense_sdk() {
    let (_, sdk) = parse_props("13\n-1\n");
    assert_eq!(sdk, None);
    let (_, sdk) = parse_props("13\nabc\n");
    assert_eq!(sdk, None);
}

#[test]
fn pids_are_sorted_and_deduplicated() {
    assert_eq!(parse_pids("4321 1234 4321\n"), vec![1234, 4321]);
    assert!(parse_pids("no pids here").is_empty());
    assert!(parse_pids("0 -5").is_empty());
}

#[test]
fn uid_is_read_from_dumpsys() {
    let dump =
        "Packages:\n  Package [com.example.app]:\n    userId=10123\n    pkg=Package{abc}\n";
    assert_eq!(parse_uid_from_dumpsys(dump), Some(10123));
}

#[test]
fn uid_missing_returns_none() {
    assert_eq!(parse_uid_from_dumpsys("Packages:\n"), None);
}

#[test]
fn package_validation_accepts_real_names() {
    for name in ["com.example.app", "com.example_app", "a", "com.a1.b2"] {
        assert!(validate_package(name).is_ok(), "rejected {name}");
    }
}

#[test]
fn package_validation_rejects_injection_attempts() {
    for name in [
        "",
        "com.example; rm -rf /",
        "com.example`id`",
        "com.example$(id)",
        ".leading",
        "trailing.",
        "double..dot",
        "com example",
    ] {
        assert!(validate_package(name).is_err(), "accepted {name}");
    }
}

#[test]
fn validation_errors_are_invalid_input() {
    assert_eq!(
        validate_package("bad name").map_err(|e| e.kind()),
        Err("invalidInput")
    );
}
