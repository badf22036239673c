//! The bounded polling of a boot collection.

use droidlog::collect::boot::{
    Window, BOOT_STATE_COMMAND, DEFAULT_INTERVAL_MS, DEFAULT_WINDOW_MS, MAX_WINDOW_MS, MIN_INTERVAL_MS, POLL_COMMAND,
    POLL_COMMAND_KERNEL,
};

#[test]
fn defaults_are_used_when_absent() {
    let window = Window::new(None, None);
    assert_eq!(window.window_ms, DEFAULT_WINDOW_MS);
    assert_eq!(window.interval_ms, DEFAULT_INTERVAL_MS);
    assert_eq!(window.expected_polls(), 60);
}

#[test]
fn a_zero_window_still_yields_one_poll() {
    let window = Window::new(Some(0), Some(0));
    assert_eq!(window.window_ms, 0);
    assert_eq!(window.interval_ms, MIN_INTERVAL_MS);
    assert_eq!(window.expected_polls(), 1);
}

#[test]
fn the_window_is_clamped() {
    let window = Window::new(Some(u64::MAX), Some(1));
    assert_eq!(window.window_ms, MAX_WINDOW_MS);
    assert_eq!(window.interval_ms, MIN_INTERVAL_MS);
}

#[test]
fn commands_are_single_read_only_shell_lines() {
    for command in [POLL_COMMAND, POLL_COMMAND_KERNEL, BOOT_STATE_COMMAND] {
        assert!(!command.is_empty());
        assert!(!command.contains('\n'));
        assert!(!command.contains("rm "));
        assert!(!command.contains('>'));
    }
}
