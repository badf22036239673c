//! The device list.

use droidlog::device::{is_recovery, parse_device_list, prettify_prop, DeviceInfo, DeviceState};

const SAMPLE: &str = "List of devices attached\n\
emulator-5554          device product:sdk_gphone64_x86_64 model:sdk_gphone64_x86_64 device:emu64x transport_id:1\n\
R58M12ABCDE            unauthorized transport_id:2\n\
192.168.1.5:5555       offline\n\
\n";

#[test]
fn parses_all_device_lines() {
    let devices = parse_device_list(SAMPLE);
    assert_eq!(devices.len(), 3);
}

#[test]
fn banner_and_blank_lines_are_skipped() {
    let devices = parse_device_list(SAMPLE);
    assert!(
        devices
            .iter()
            .all(|device| !device.serial.contains("List of devices")),
        "banner leaked into the device list"
    );
}

#[test]
fn long_format_properties_are_captured() {
    let devices = parse_device_list(SAMPLE);
    let first = devices.first();
    assert_eq!(first.map(|d| d.serial.as_str()), Some("emulator-5554"));
    assert_eq!(
        first.and_then(|d| d.model.as_deref()),
        Some("sdk gphone64 x86 64")
    );
    assert_eq!(
        first.and_then(|d| d.product.as_deref()),
        Some("sdk_gphone64_x86_64")
    );
    assert_eq!(first.and_then(|d| d.transport_id.as_deref()), Some("1"));
    assert_eq!(
        first.map(|d| d.state),
        Some(DeviceState::Device),
        "expected the device to be usable"
    );
}

#[test]
fn unusable_states_are_classified() {
    let devices = parse_device_list(SAMPLE);
    assert_eq!(
        devices.get(1).map(|d| d.state),
        Some(DeviceState::Unauthorized)
    );
    assert_eq!(devices.get(2).map(|d| d.state), Some(DeviceState::Offline));
    assert_eq!(devices.get(2).map(DeviceInfo::is_usable), Some(false));
}

#[test]
fn daemon_notices_are_ignored() {
    let raw = "* daemon not running; starting now at tcp:5037\n\
* daemon started successfully\n\
List of devices attached\n\
SER device\n";
    let devices = parse_device_list(raw);
    assert_eq!(devices.len(), 1);
    assert_eq!(devices.first().map(|d| d.serial.as_str()), Some("SER"));
}

#[test]
fn unknown_state_is_preserved_raw() {
    let devices = parse_device_list("SER fastbootd\n");
    assert_eq!(devices.first().map(|d| d.state), Some(DeviceState::Unknown));
    assert_eq!(
        devices.first().map(|d| d.state_raw.as_str()),
        Some("fastbootd")
    );
}

#[test]
fn android_label_degrades_gracefully() {
    let mut device = DeviceInfo::new("SER", DeviceState::Device, "device");
    assert_eq!(device.android_label(), None);
    device.android_version = Some("14".to_owned());
    assert_eq!(device.android_label().as_deref(), Some("Android 14"));
    device.sdk = Some(34);
    assert_eq!(
        device.android_label().as_deref(),
        Some("Android 14 (SDK 34)")
    );
}

#[test]
fn display_name_falls_back_to_serial() {
    let mut device = DeviceInfo::new("SER", DeviceState::Device, "device");
    assert_eq!(device.display_name(), "SER");
    device.model = Some("Pixel 8".to_owned());
    assert_eq!(device.display_name(), "Pixel 8");
}

#[test]
fn malformed_lines_are_dropped() {
    assert!(parse_device_list("justoneserial\n").is_empty());
}

#[test]
fn prettify_replaces_underscores() {
    assert_eq!(prettify_prop("Pixel_8_Pro"), "Pixel 8 Pro");
    assert_eq!(prettify_prop("  spaced  "), "spaced");
}

#[test]
fn recovery_is_detected_from_state_or_serial() {
    // Transport state says so.
    let by_state = DeviceInfo::new("83048a94", DeviceState::Recovery, "recovery");
    assert!(by_state.recovery);
    // Sideload cannot run `adb shell`, so it counts as recovery too.
    let sideload = DeviceInfo::new("83048a94", DeviceState::Sideload, "sideload");
    assert!(sideload.recovery);
    // The suffix adb uses when the same handset is also listed as booted.
    let by_serial = DeviceInfo::new("83048a94_recovery", DeviceState::Device, "device");
    assert!(by_serial.recovery);
    // A raw token this build does not model yet, but which adb reports.
    assert!(is_recovery("X", DeviceState::Unknown, "RECOVERY"));

    let normal = DeviceInfo::new("83048a94", DeviceState::Device, "device");
    assert!(!normal.recovery);
}
