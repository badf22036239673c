//! Probes: their commands, their diagnosis, and what is read back.

use droidlog::collect::probe::{
    boot_probes, classify_output, crash_probes, follow_up, listed_files, recovery_probes, tail_lines, ProbeStatus,
    MAX_FOLLOW_UP_FILES,
};
use droidlog::executor::ExecOutput;

fn output(stdout: &str, stderr: &str, code: i32) -> ExecOutput {
    ExecOutput {
        stdout: stdout.to_owned(),
        stderr: stderr.to_owned(),
        code,
    }
}

#[test]
fn successful_output_is_found() {
    assert_eq!(
        classify_output(&output("some log line\n", "", 0)),
        ProbeStatus::Found
    );
}

#[test]
fn empty_directory_is_empty_not_missing() {
    assert_eq!(classify_output(&output("", "", 0)), ProbeStatus::Empty);
}

#[test]
fn missing_path_is_reported_as_missing() {
    let out = output("", "ls: /data/tombstones: No such file or directory", 2);
    assert_eq!(classify_output(&out), ProbeStatus::Missing);
}

#[test]
fn denied_path_is_distinguished_from_missing() {
    let out = output("", "cat: /data/anr/traces.txt: Permission denied", 1);
    assert_eq!(classify_output(&out), ProbeStatus::Denied);
    assert!(ProbeStatus::Denied.hint().is_some());
}

#[test]
fn restricted_kernel_ring_has_its_own_status() {
    let out = output("", "dmesg: klogctl: Operation not permitted", 1);
    assert_eq!(classify_output(&out), ProbeStatus::Restricted);
    let hint = ProbeStatus::Restricted.hint().unwrap_or_default();
    assert!(hint.contains("dmesg_restrict"));
}

#[test]
fn permission_denied_inside_log_text_is_not_a_denial() {
    // A crash buffer full of application lines that mention the phrase must
    // still count as a healthy probe.
    let out = output(
        "05-01 10:00:00.000  1  1 E Auditd  : avc: denied { read } Permission denied\n",
        "",
        0,
    );
    assert_eq!(classify_output(&out), ProbeStatus::Found);
}

#[test]
fn nonzero_exit_with_data_is_still_found() {
    let out = output("05-01 10:00:00.000  1  1 I am_crash: x\n", "", 1);
    assert_eq!(classify_output(&out), ProbeStatus::Found);
}

#[test]
fn unexplained_failure_is_failed() {
    let out = output("", "error: device offline", 1);
    assert_eq!(classify_output(&out), ProbeStatus::Failed);
}

#[test]
fn tail_lines_keeps_the_newest() {
    let text = "1\n2\n3\n4\n5";
    let (kept, trimmed) = tail_lines(text, 2);
    assert!(trimmed);
    assert_eq!(kept, "4\n5");
    let (whole, trimmed) = tail_lines(text, 9);
    assert!(!trimmed);
    assert_eq!(whole, text);
}

#[test]
fn follow_up_joins_the_directory_and_the_name() {
    assert_eq!(
        follow_up("/data/tombstones", "tombstone_09"),
        "cat /data/tombstones/tombstone_09"
    );
    // A trailing slash must not double up.
    assert_eq!(follow_up("/sys/fs/pstore/", "console-ramoops-0"), "cat /sys/fs/pstore/console-ramoops-0");
}

#[test]
fn listed_files_keeps_only_plain_names_newest_first() {
    let listing = "tombstone_00\ntombstone_09\n\nnot a file\nsub/dir\n";
    assert_eq!(
        listed_files(listing, MAX_FOLLOW_UP_FILES),
        vec!["tombstone_09".to_owned(), "tombstone_00".to_owned()]
    );
    assert!(listed_files("a\nb", 1).len() == 1);
}

#[test]
fn every_probe_id_is_unique_and_non_empty() {
    let mut ids: Vec<&str> = crash_probes()
        .iter()
        .chain(recovery_probes())
        .chain(boot_probes())
        .map(|probe| probe.id)
        .collect();
    let total = ids.len();
    ids.sort_unstable();
    ids.dedup();
    assert_eq!(ids.len(), total);
    assert!(ids.iter().all(|id| !id.is_empty()));
}

#[test]
fn listing_probes_name_a_directory_and_ingesting_ones_do_not() {
    for probe in crash_probes().iter().chain(recovery_probes()).chain(boot_probes()) {
        assert!(!probe.command.is_empty());
        if probe.ingest {
            assert!(probe.dir.is_none(), "{} ingests a listing", probe.id);
            assert!(!probe.command.starts_with("ls -1"));
        } else if let Some(dir) = probe.dir {
            assert!(dir.starts_with('/'), "{} has a relative directory", probe.id);
        }
    }
}
