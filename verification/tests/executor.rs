//! Command plans and outputs.

use droidlog::executor::{ExecMode, ExecOutput, ExecTarget};

#[test]
fn root_mode_wraps_with_su() {
    let target = ExecTarget::new(ExecMode::Root, Some("ABC123"), "adb");
    let plan = target.plan("dmesg -w");
    assert_eq!(
        plan.args,
        vec!["-s", "ABC123", "shell", "su", "-c", "dmesg -w"]
    );
}

#[test]
fn adb_mode_has_no_su() {
    let target = ExecTarget::new(ExecMode::Adb, None, "adb");
    let plan = target.plan("logcat -v threadtime");
    assert_eq!(plan.args, vec!["shell", "logcat -v threadtime"]);
}

#[test]
fn display_quotes_only_when_needed() {
    let target = ExecTarget::new(ExecMode::Adb, Some("S"), "adb");
    assert_eq!(
        target.plan("logcat -v threadtime").display(),
        "adb -s S shell \"logcat -v threadtime\""
    );
}

#[test]
fn blank_trailing_lines_are_trimmed() {
    let output = ExecOutput {
        stdout: "a\nb\n\n\n".to_owned(),
        stderr: String::new(),
        code: 0,
    };
    assert_eq!(output.stdout_lines(), vec!["a", "b"]);
}
