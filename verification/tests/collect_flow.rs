//! Whole collections, command by command.

use droidlog::collect::flow::{Clocks, CollectAction, Collection};
use droidlog::collect::ingest::Ingestor;
use droidlog::collect::probe::ProbeStatus;
use droidlog::collect::{start, CollectRequest, Run};
use droidlog::error::{DroidLogError, Result};
use droidlog::executor::{ExecMode, ExecOutput};
use droidlog::process::SessionStatus;
use droidlog::state::AppState;

const AT: Clocks = Clocks { now: 100, ticks: 10 };

fn output(stdout: &str, stderr: &str, code: i32) -> Result<ExecOutput> {
    Ok(ExecOutput {
        stdout: stdout.to_owned(),
        stderr: stderr.to_owned(),
        code,
    })
}

fn ok(stdout: &str) -> Result<ExecOutput> {
    output(stdout, "", 0)
}

fn opened(run: Run) -> (AppState, Ingestor, Collection) {
    let request = CollectRequest {
        serial: "SER".to_owned(),
        mode: ExecMode::Adb,
        capacity: None,
        duration_ms: Some(4_000),
        interval_ms: Some(2_000),
    };
    let mut state = AppState::new();
    let Ok(session) = start(&mut state, &request, run, 1) else {
        unreachable!("the first session is opened")
    };
    let ingest = Ingestor::new(&session.id, run.source());
    let flow = Collection::begin(run, &session.id, &request);
    (state, ingest, flow)
}

fn asks(flow: &Collection, command: &str) {
    assert_eq!(flow.action(), CollectAction::Ask(command.to_owned()));
}

#[test]
fn a_recovery_collection_reads_every_probe_in_order() {
    let (mut state, mut ingest, mut flow) = opened(Run::Recovery);
    asks(&flow, "uname -r");
    flow.answer(ok("5.10.1\n"), &mut ingest, &mut state, AT);
    asks(&flow, "logcat -g");
    flow.answer(output("", "logcat: not found", 127), &mut ingest, &mut state, AT);
    asks(&flow, "cat /tmp/recovery.log");
    flow.answer(ok("I:wiping data\n"), &mut ingest, &mut state, AT);
    asks(&flow, "cat /cache/recovery/last_log");
    flow.answer(
        Err(DroidLogError::DeviceNotFound("SER".to_owned())),
        &mut ingest,
        &mut state,
        AT,
    );
    asks(&flow, "dmesg");
    flow.answer(
        output("", "dmesg: klogctl: Operation not permitted", 1),
        &mut ingest,
        &mut state,
        AT,
    );
    asks(&flow, "ls -1 /sys/fs/pstore");
    flow.answer(ok("console-ramoops-0\n"), &mut ingest, &mut state, AT);
    asks(&flow, "cat /sys/fs/pstore/console-ramoops-0");
    flow.answer(ok("[    1.000000] Kernel panic - not syncing\n"), &mut ingest, &mut state, AT);
    assert_eq!(flow.action(), CollectAction::Done);
    assert_eq!(flow.take_progress(), None);

    let (report, status) = flow.report(&mut ingest, &mut state, 9);
    assert_eq!(status, SessionStatus::Stopped);
    let told: Vec<(&str, ProbeStatus, usize)> = report
        .outcomes
        .iter()
        .map(|outcome| (outcome.id.as_str(), outcome.status, outcome.records))
        .collect();
    assert_eq!(
        told,
        vec![
            ("device-profile", ProbeStatus::Found, 0),
            ("recovery-log", ProbeStatus::Found, 1),
            ("recovery-last-log", ProbeStatus::Failed, 0),
            ("recovery-kernel", ProbeStatus::Restricted, 0),
            ("recovery-pstore", ProbeStatus::Found, 1),
        ]
    );
    assert_eq!((report.sources_found, report.records, report.finished_at_ms), (2, 2, 9));
    assert_eq!(report.found_labels().len(), 2, "the profile yields no records");
    assert_eq!(report.failure, None);
    assert!(state.collect_report("session-1").is_some());
    assert_eq!(state.session_records("session-1", None).map(|kept| kept.len()).ok(), Some(2));
}

#[test]
fn a_silent_device_still_gets_a_report() {
    let (mut state, mut ingest, mut flow) = opened(Run::Crash);
    let mut asked = 0;
    while let CollectAction::Ask(_) = flow.action() {
        flow.answer(output("", "Permission denied", 1), &mut ingest, &mut state, AT);
        asked += 1;
    }
    // The profile, and every probe but those that need a buffer of their own.
    assert_eq!(asked, 2 + 5);
    let (report, status) = flow.report(&mut ingest, &mut state, 9);
    assert_eq!(report.outcomes.len(), 1 + 5);
    assert_eq!(report.failure, None, "the device was asked, and that is told");
    assert_eq!(status, SessionStatus::Stopped);
}

#[test]
fn a_boot_collection_polls_until_the_device_has_booted() {
    let (mut state, mut ingest, mut flow) = opened(Run::Boot);
    let ring = "<6>[    1.000000] a: b\n";
    flow.answer(ok("5.10.1\n"), &mut ingest, &mut state, AT);
    flow.answer(ok("kernel: ring buffer is 1 MiB\n"), &mut ingest, &mut state, AT);
    asks(&flow, "logcat -d -v threadtime -b kernel -t 800");
    flow.answer(ok(ring), &mut ingest, &mut state, AT);
    asks(&flow, "ls -1 /sys/fs/pstore");
    flow.answer(ok(""), &mut ingest, &mut state, AT);
    for file in ["console-ramoops-0", "console-ramoops", "pmsg-ramoops-0"] {
        asks(&flow, &format!("cat /sys/fs/pstore/{file}"));
        flow.answer(output("", "No such file or directory", 1), &mut ingest, &mut state, AT);
    }
    assert_eq!(flow.take_progress(), None);
    flow.answer(ok("[sys.boot_completed]: []\n"), &mut ingest, &mut state, AT);

    // The snapshot has read the ring, so the first poll only learns its tail.
    asks(&flow, "logcat -d -v threadtime -b kernel");
    let Some(progress) = flow.take_progress() else {
        panic!("the countdown starts with the first poll")
    };
    assert_eq!((progress.done, progress.total, progress.ends_at_ms), (1, 2, 4_100));
    let shown = &state.session_summaries()[0].session.progress;
    assert_eq!(shown.as_ref().map(|kept| kept.done), Some(1));
    flow.answer(ok(ring), &mut ingest, &mut state, AT);
    asks(&flow, "getprop sys.boot_completed; getprop dev.bootcomplete");
    flow.answer(ok("\n0\n"), &mut ingest, &mut state, Clocks { now: 200, ticks: 4_009 });
    assert_eq!(flow.action(), CollectAction::Wait(2_000));

    flow.rested(&mut state);
    assert_eq!(flow.take_progress().map(|progress| progress.done), Some(2));
    let grown = format!("{ring}<6>[    2.000000] c: d\n");
    flow.answer(ok(&grown), &mut ingest, &mut state, AT);
    flow.answer(ok("1\n"), &mut ingest, &mut state, AT);
    assert_eq!(flow.action(), CollectAction::Done);

    let (report, _status) = flow.report(&mut ingest, &mut state, 9);
    let ids: Vec<&str> = report.outcomes.iter().map(|outcome| outcome.id.as_str()).collect();
    assert_eq!(ids, vec!["device-profile", "boot-kernel", "boot-pstore", "boot-props", "boot-poll"]);
    assert_eq!(report.outcomes[4].records, 1);
    assert_eq!(report.outcomes[4].label, "轮询内核缓冲 2 次（设备已启动完成）");
    assert_eq!(report.records, 2);
}

#[test]
fn an_unknown_kernel_is_read_modern_first() {
    let (mut state, mut ingest, mut flow) = opened(Run::Boot);
    flow.answer(ok(""), &mut ingest, &mut state, AT);
    flow.answer(ok(""), &mut ingest, &mut state, AT);
    let mut asked: Vec<String> = Vec::new();
    while let CollectAction::Ask(command) = flow.action() {
        if command.starts_with("getprop") {
            break;
        }
        asked.push(command);
        flow.answer(output("", "No such file or directory", 1), &mut ingest, &mut state, AT);
    }
    assert_eq!(
        asked,
        vec![
            "dmesg",
            "ls -1 /sys/fs/pstore",
            "cat /sys/fs/pstore/console-ramoops-0",
            "cat /sys/fs/pstore/console-ramoops",
            "cat /sys/fs/pstore/pmsg-ramoops-0",
            "cat /proc/last_kmsg",
        ]
    );
}

#[test]
fn polling_ends_with_its_window() {
    let (mut state, mut ingest, mut flow) = opened(Run::Boot);
    while !matches!(flow.action(), CollectAction::Ask(command) if command == "dmesg") {
        flow.answer(ok(""), &mut ingest, &mut state, AT);
    }
    // The snapshot reads the ring, and so do the polls behind the other probes.
    flow.answer(ok("<6>[ 1.0] a: b\n"), &mut ingest, &mut state, AT);
    while !matches!(flow.action(), CollectAction::Ask(command) if command == "dmesg") {
        flow.answer(ok(""), &mut ingest, &mut state, AT);
    }
    flow.answer(ok("<6>[ 1.0] a: b\n"), &mut ingest, &mut state, AT);
    flow.answer(ok("0\n"), &mut ingest, &mut state, Clocks { now: 0, ticks: 4_010 });
    assert_eq!(flow.action(), CollectAction::Done);
    let (report, _status) = flow.report(&mut ingest, &mut state, 9);
    let Some(polls) = report.outcomes.last() else {
        unreachable!("the polls are told of")
    };
    assert_eq!(polls.label, "轮询内核缓冲 1 次（窗口 4 秒结束）");
    assert_eq!(polls.status, ProbeStatus::Empty);
}
