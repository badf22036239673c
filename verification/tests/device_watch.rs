//! The device poll: kept probes, requests and announcements.

use std::time::Duration;

use droidlog::device::watch::{
    default_mode, probe_key, root_is_offerable, same_devices, DeviceWatcher, POLL_INTERVAL,
};
use droidlog::device::{DeviceInfo, DeviceState};
use droidlog::executor::ExecMode;

fn device(serial: &str, state_raw: &str, model: Option<&str>) -> DeviceInfo {
    let mut device = DeviceInfo::new(serial, DeviceState::from_token(state_raw), state_raw);
    device.model = model.map(str::to_owned);
    device
}

#[test]
fn probe_key_changes_when_the_device_appearance_changes() {
    let base = device("SER", "device", Some("Pixel"));
    assert_eq!(probe_key(&base), probe_key(&base.clone()));

    // A reconnect (state change) or a different model must invalidate it.
    let offline = device("SER", "offline", Some("Pixel"));
    assert_ne!(probe_key(&base), probe_key(&offline));

    let other_model = device("SER", "device", Some("Other"));
    assert_ne!(probe_key(&base), probe_key(&other_model));
}

#[test]
fn fingerprint_is_stable_and_order_sensitive() {
    let a = device("A", "device", Some("M"));
    let b = device("B", "device", Some("M"));
    assert!(same_devices(&vec![a.clone(), b.clone()], &vec![a.clone(), b.clone()]));
    assert!(!same_devices(&vec![a.clone(), b.clone()], &vec![b, a]));
}

#[test]
fn fingerprint_notices_field_level_changes() {
    // The whole point of polling: a root status or version change must
    // produce a new payload even though serial and model are unchanged.
    let plain = device("A", "device", Some("M"));
    let mut probed = plain.clone();
    probed.android_version = Some("16".to_owned());
    probed.root_available = Some(true);
    assert!(!same_devices(&vec![plain], &vec![probed]));
}

#[test]
fn poll_interval_matches_the_spec() {
    assert_eq!(Duration::from_secs(POLL_INTERVAL), Duration::from_secs(2));
}

#[test]
fn force_probe_request_is_consumed_once() {
    let mut watcher = DeviceWatcher::new();
    assert!(!watcher.take_force_probe());
    watcher.request_probe();
    assert!(watcher.take_force_probe());
    assert!(!watcher.take_force_probe(), "must not stay latched");
}

#[test]
fn a_probe_request_also_forces_a_resend() {
    // A refresh button that silently does nothing because the data matches
    // the previous payload is the bug this guards.
    let mut watcher = DeviceWatcher::new();
    assert!(!watcher.take_resend());
    watcher.request_probe();
    assert!(watcher.take_resend(), "probe request must re-emit");
    assert!(!watcher.take_resend(), "must not stay latched");
}

#[test]
fn a_plain_wake_does_not_force_a_resend() {
    // Ordinary ticks stay quiet when nothing changed.
    let mut watcher = DeviceWatcher::new();
    watcher.wake();
    assert!(!watcher.take_resend());
    assert!(!watcher.take_force_probe());
}

#[test]
fn root_mode_is_offered_only_where_root_was_proven_or_unknown() {
    let mut usable = device("A", "device", None);
    usable.root_available = Some(true);
    assert!(root_is_offerable(&usable));
    assert_eq!(default_mode(&usable), ExecMode::Root);

    let mut no_root = device("A", "device", None);
    no_root.root_available = Some(false);
    assert!(!root_is_offerable(&no_root));
    assert_eq!(default_mode(&no_root), ExecMode::Adb);

    // Unknown root (not probed yet) stays offerable so the user is not
    // blocked before the first probe completes.
    let unknown = device("A", "device", None);
    assert!(root_is_offerable(&unknown));

    // An offline device cannot be captured from at all.
    let mut offline = device("A", "offline", None);
    offline.root_available = Some(true);
    assert!(!root_is_offerable(&offline));
}
