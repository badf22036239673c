//! What alternates with the device, step by step.

use droidlog::adb::server::{ensure, RECOVERY_FAILED_HINT};
use droidlog::adb::{Adb, QueryStage, QueryStep};
use droidlog::collect::boot::BootRun;
use droidlog::collect::ingest::{CollectEvent, Ingestor};
use droidlog::collect::probe::{boot_probes, crash_probes, Probe, ProbeStatus};
use droidlog::collect::profile::{detect, KernelEra};
use droidlog::collect::run::ProbeRun;
use droidlog::collect::{
    fail_collection, finish_collection, keep_probe, profile_outcome, start_boot, start_crash, start_recovery,
    CollectRequest, Run, MAX_PROBE_LINES, TAIL_MEMORY,
};
use droidlog::device::probe::{
    dumpsys_command, pidof_command, probe_device, resolve_pid, resolve_pids, resolve_pids_fallback, resolve_uid, PidStep,
};
use droidlog::device::resolve::{
    parse_ps, probe_logcat_uid, resolve, resolve_from, AppResolver, AppTarget, AppTargetKind, Prefilter, ResolveStart,
    ResolveStep,
};
use droidlog::device::watch::{
    changed, refresh_active_target, settle_poll, wants_refresh, DevicesEvent, Poll, ProbeTable, Refresh,
};
use droidlog::device::DeviceProbe;
use droidlog::error::{DroidLogError, Result};
use droidlog::executor::root::RootProbe;
use droidlog::filter::{FilterField, FilterOp, FilterRule};
use droidlog::executor::{ExecMode, ExecOutput};
use droidlog::process::reader::{
    chunk_line, terminal_status, Consumer, StderrTail, BATCH_SIZE, READ_CHANNEL_CAPACITY, STDERR_TAIL,
};
use droidlog::process::{
    check_start, open_manual_session, plan_start, start, stop, stop_all, uid_pushdown, uid_question, CaptureRequest,
    SessionStatus,
};
use droidlog::source::{build, LogSourceKind, SourceOptions};
use droidlog::state::AppState;

fn output(stdout: &str, stderr: &str, code: i32) -> ExecOutput {
    ExecOutput {
        stdout: stdout.to_owned(),
        stderr: stderr.to_owned(),
        code,
    }
}

fn ok(stdout: &str) -> Result<ExecOutput> {
    Ok(output(stdout, "", 0))
}

fn gone() -> DroidLogError {
    DroidLogError::DeviceNotFound("SER".to_owned())
}

/* ------------------------------- adb ------------------------------------- */

#[test]
fn a_query_that_succeeds_ends_at_once() {
    let adb = Adb::with_program("adb");
    assert_eq!(QueryStage::begin(true), QueryStage::Preflight);
    assert_eq!(QueryStage::begin(false), QueryStage::First);
    assert!(matches!(
        QueryStage::Preflight.after_server(Ok(())),
        QueryStep::Next(QueryStage::First)
    ));
    let step = adb.devices_query(QueryStage::First, ok("List of devices attached\nSER device\n"));
    let QueryStep::Done(done) = step else {
        unreachable!("a success ends the query")
    };
    let devices = adb.devices(done).expect("devices");
    assert_eq!(devices.len(), 1);
    assert_eq!(devices[0].serial, "SER");
}

#[test]
fn a_deaf_server_is_retried_and_then_rebuilt() {
    let adb = Adb::with_program("adb");
    let deaf = || Ok(output("", "cannot connect to daemon\n", 1));
    assert!(matches!(
        adb.devices_query(QueryStage::First, deaf()),
        QueryStep::Next(QueryStage::Bootstrap)
    ));
    // A failed start is ignored: the retry decides.
    assert!(matches!(
        QueryStage::Bootstrap.after_server(Err(gone())),
        QueryStep::Next(QueryStage::Second)
    ));
    assert!(matches!(
        adb.devices_query(QueryStage::Second, deaf()),
        QueryStep::Next(QueryStage::Rebuild)
    ));
    assert!(matches!(
        QueryStage::Rebuild.after_server(Ok(())),
        QueryStep::Next(QueryStage::Third)
    ));
    let QueryStep::Done(Err(error)) = adb.devices_query(QueryStage::Third, deaf()) else {
        unreachable!("the third failure is the last")
    };
    assert_eq!(
        error.detail(),
        Some(format!("cannot connect to daemon\n{RECOVERY_FAILED_HINT}"))
    );
}

#[test]
fn a_problem_of_a_device_is_reported_at_once() {
    let adb = Adb::with_program("adb");
    let step = adb.devices_query(QueryStage::First, Ok(output("", " no devices ", 1)));
    let QueryStep::Done(Err(error)) = step else {
        unreachable!("no retry for a device problem")
    };
    assert_eq!(
        error.to_string(),
        "adb 命令失败（adb devices -l，退出码 1）：no devices"
    );
    assert!(matches!(
        adb.devices_query(QueryStage::Second, Err(gone())),
        QueryStep::Done(Err(DroidLogError::DeviceNotFound(_)))
    ));
    assert!(matches!(
        QueryStage::Rebuild.after_server(Err(gone())),
        QueryStep::Done(Err(_))
    ));
}

#[test]
fn versions_and_server_starts_are_settled() {
    let adb = Adb::with_program("/x/adb");
    assert_eq!(
        adb.version(output(" Android Debug Bridge 1.0.41 \nInstalled\n\n", "", 0)).ok(),
        Some("Android Debug Bridge 1.0.41".to_owned())
    );
    assert_eq!(adb.version(output("\n\n", "", 0)).ok(), Some(String::new()));
    assert!(adb.version(output("x", "bad", 2)).is_err());
    assert!(ensure("adb", 0).is_ok());
    assert_eq!(
        ensure("adb", 3).map_err(|e| e.to_string()),
        Err("adb 命令失败（adb start-server，退出码 3）：adb server 启动失败".to_owned())
    );
}

/* ------------------------------ device ----------------------------------- */

#[test]
fn device_probes_degrade_gracefully() {
    let root = |available| {
        Ok(RootProbe {
            available,
            identity: None,
            reason: if available { None } else { Some("no su".to_owned()) },
        })
    };
    let probe = probe_device(ok("14\n34\n"), root(true)).expect("probed");
    assert_eq!(probe.android_version.as_deref(), Some("14"));
    assert_eq!(probe.sdk, Some(34));
    assert!(probe.root_available);
    let probe = probe_device(Err(gone()), root(false)).expect("probed");
    assert_eq!(probe.android_version, None);
    assert_eq!(probe.root_reason.as_deref(), Some("no su"));
    assert!(probe_device(ok("14\n34\n"), Err(gone())).is_err());
}

#[test]
fn package_queries_fall_back_to_pgrep() {
    assert_eq!(pidof_command("com.a").ok(), Some("pidof com.a".to_owned()));
    assert_eq!(dumpsys_command("com.a").ok(), Some("dumpsys package com.a".to_owned()));
    assert_eq!(pidof_command("a b").map_err(|e| e.kind()), Err("invalidInput"));

    assert!(matches!(
        resolve_pids("com.a", ok("30 20\n")),
        PidStep::Done(Ok(pids)) if pids == vec![20, 30]
    ));
    assert!(matches!(
        resolve_pids("com.a", ok("")),
        PidStep::Fallback(command) if command == "pgrep -f com.a"
    ));
    assert!(matches!(resolve_pids("com.a", Err(gone())), PidStep::Done(Err(_))));
    let pids = resolve_pids_fallback(ok("9\n7\n9\n"));
    assert_eq!(resolve_pid(pids).ok(), Some(Some(7)));
    assert_eq!(resolve_pid(Ok(Vec::new())).ok(), Some(None));
    assert_eq!(resolve_uid("com.a", ok("  userId=10123 gids=[]\n")).ok(), Some(Some(10123)));

    // A malformed name is refused, whatever was answered.
    for answer in ["", "30 20\n"] {
        assert!(matches!(
            resolve_pids("a; b", ok(answer)),
            PidStep::Done(Err(error)) if error.kind() == "invalidInput"
        ));
    }
    assert_eq!(resolve_uid("a; b", ok("userId=1\n")).map_err(|e| e.kind()), Err("invalidInput"));
}

const PS: &str = "USER PID PPID S NAME
root 1 0 S init
u0_a123 50 0 S com.example.app
u0_a123 60 0 S com.example.app:remote
u0_a9 70 0 S /system/bin/thing
";

fn done(step: ResolveStep) -> Result<AppTarget> {
    match step {
        ResolveStep::Done(result) => result,
        ResolveStep::Ask(pending) => unreachable!("waits for {}", pending.command()),
    }
}

fn ask(step: ResolveStep, command: &str, reply: Result<ExecOutput>) -> ResolveStep {
    match step {
        ResolveStep::Ask(pending) => {
            assert_eq!(pending.command(), command);
            pending.answer(reply, 77)
        }
        ResolveStep::Done(result) => unreachable!("already done: {result:?}"),
    }
}

#[test]
fn a_package_resolves_through_the_first_source_that_knows_it() {
    let begin = || resolve_from("com.example.app", parse_ps(PS), ExecMode::Adb, "SER", 66);
    let step = ask(begin(), "dumpsys package com.example.app", ok("userId=10123\n"));
    let target = done(step).expect("resolved");
    assert!(target.found);
    assert_eq!(target.kind, AppTargetKind::Package);
    assert_eq!(target.uid, Some(10123));
    assert_eq!(target.pids, vec![50, 60]);
    assert_eq!(target.summary(), "com.example.app · UID 10123 · PIDs [50,60]");
    assert_eq!(target.resolved_at_ms, 77, "when the last answer came");

    // A failed transport is no answer.
    let failed = done(ask(begin(), "dumpsys package com.example.app", Err(gone())));
    assert_eq!(failed.map_err(|e| e.kind()).err(), Some("deviceNotFound"));

    let step = ask(begin(), "dumpsys package com.example.app", ok(""));
    let step = ask(step, "cmd package list packages -U", ok("package:com.example.app uid:7\n"));
    assert_eq!(done(step).expect("resolved").uid, Some(7));

    let step = ask(begin(), "dumpsys package com.example.app", ok(""));
    let step = ask(step, "cmd package list packages -U", ok(""));
    let step = ask(step, "cat /data/system/packages.list", ok("com.example.app 9 0 /x\n"));
    assert_eq!(done(step).expect("resolved").uid, Some(9));
}

#[test]
fn an_installed_app_that_does_not_run_says_so() {
    let step = resolve_from("com.absent", parse_ps(PS), ExecMode::Adb, "SER", 66);
    let step = ask(step, "dumpsys package com.absent", ok("userId=20000\n"));
    let target = done(step).expect("no error");
    assert!(!target.found);
    assert_eq!(
        target.reason.as_deref(),
        Some("包 com.absent 已安装但当前没有进程运行 —— 应用未开启")
    );

    let step = resolve_from("com.absent", parse_ps(PS), ExecMode::Adb, "SER", 66);
    let step = ask(step, "dumpsys package com.absent", ok(""));
    let step = ask(step, "cmd package list packages -U", ok(""));
    let step = ask(step, "cat /data/system/packages.list", Ok(output("", "Permission denied", 1)));
    let target = done(step).expect("no error");
    assert_eq!(target.reason.as_deref(), Some("未找到包 com.absent —— 应用未安装或不存在"));

    // A package without a process of its name is found through its uid.
    let step = resolve_from("com.alias", parse_ps(PS), ExecMode::Adb, "SER", 66);
    let step = ask(step, "dumpsys package com.alias", ok("userId=10123\n"));
    assert_eq!(done(step).expect("resolved").pids, vec![50, 60]);
}

#[test]
fn the_live_table_decides_what_a_number_is() {
    // A running process id.
    let step = resolve_from("60", parse_ps(PS), ExecMode::Root, "SER", 66);
    let step = ask(step, "cat /proc/60/cmdline", ok("com.example.app:remote\0--x"));
    let step = ask(step, "dumpsys package com.example.app", ok("userId=10123\n"));
    let target = done(step).expect("resolved");
    assert_eq!(target.kind, AppTargetKind::Pid);
    assert_eq!(target.package.as_deref(), Some("com.example.app"));
    assert_eq!(target.pids, vec![50, 60]);
    assert_eq!(target.mode, ExecMode::Root);

    // A native process has no package, but an owner.
    let step = resolve_from("70", parse_ps(PS), ExecMode::Adb, "SER", 66);
    let target = done(ask(step, "cat /proc/70/cmdline", ok("/system/bin/thing\0"))).expect("resolved");
    assert_eq!(target.package, None);
    assert_eq!(target.uid, Some(10009));
    assert_eq!(target.pids, vec![70]);

    // A uid.
    let target = done(resolve_from("10123", parse_ps(PS), ExecMode::Adb, "SER", 66)).expect("resolved");
    assert_eq!(target.kind, AppTargetKind::Uid);
    assert_eq!(target.pids, vec![50, 60]);

    // Neither.
    let target = done(resolve_from("4242", parse_ps(PS), ExecMode::Adb, "SER", 66)).expect("no error");
    assert_eq!(target.resolved_at_ms, 66);
    assert!(!target.found);
    assert_eq!(
        target.reason.as_deref(),
        Some("4242 既不是运行中的 PID，也不是任何进程的 UID —— 应用未开启或不存在")
    );

    // The transport fails while the process is looked at.
    let step = resolve_from("50", parse_ps(PS), ExecMode::Adb, "SER", 66);
    assert!(done(ask(step, "cat /proc/50/cmdline", Err(gone()))).is_err());

    // A process id that cannot be one.
    let odd = "USER PID PPID S NAME\nroot 0 0 S swapper\n";
    assert_eq!(
        done(resolve_from("0", parse_ps(odd), ExecMode::Adb, "SER", 66)).map_err(|e| e.to_string()).map(|_| ()),
        Err("参数无效：PID 无效：0".to_owned())
    );
    assert!(done(resolve_from("bad name", parse_ps(PS), ExecMode::Adb, "SER", 66)).is_err());
}

#[test]
fn a_fresh_resolution_is_reused_unless_forced() {
    let mut resolver = AppResolver::new(30_000);
    let target = AppTarget::missing("com.a", AppTargetKind::Package, "SER", ExecMode::Adb, "x");
    resolver.store(&target, 100);
    assert!(matches!(resolve(&resolver, " com.a ", 30_100, false), ResolveStart::Hit(hit) if hit.input == "com.a"));
    assert!(matches!(resolve(&resolver, " com.a ", 30_101, false), ResolveStart::Table(text) if text == "com.a"));
    assert!(matches!(resolve(&resolver, "com.a", 100, true), ResolveStart::Table(_)));
    assert!(matches!(
        resolve(&resolver, "  ", 0, false),
        ResolveStart::Refused(DroidLogError::InvalidInput(text)) if text == "请输入 PID / 包名 / UID"
    ));
    resolver.clear();
    assert!(resolver.cached("com.a", 100).is_none());
    assert!(!resolver.is_stale("com.a", 100_000), "there is nothing that could have expired");

    assert_eq!(probe_logcat_uid(&mut resolver, "S", Ok(output("", "  --uid=<uids>", 1))).ok(), Some(true));
    assert_eq!(resolver.uid_support("S"), Some(true));
    assert_eq!(probe_logcat_uid(&mut resolver, "S", ok("usage")).ok(), Some(true), "asked once");
    assert_eq!(probe_logcat_uid(&mut resolver, "S", Err(gone())).ok(), Some(true));
    assert_eq!(probe_logcat_uid(&mut resolver, "T", ok("usage")).ok(), Some(false));
    assert!(probe_logcat_uid(&mut resolver, "U", Err(gone())).is_err());
    assert_eq!(resolver.uid_support("U"), None);
}

fn details(version: &str) -> DeviceProbe {
    DeviceProbe {
        android_version: Some(version.to_owned()),
        sdk: Some(34),
        root_available: true,
        root_reason: None,
    }
}

#[test]
fn a_device_is_probed_once_per_appearance() {
    let mut table = ProbeTable::new();
    let listing = "List of devices attached\nA device model:M1\nB offline\n";
    let mut poll = Poll::begin(&mut table, listing, false);
    assert_eq!(poll.next_probe(&table).as_deref(), Some("A"));
    poll.take_probe(&mut table, Ok(details("14")));
    assert_eq!(poll.next_probe(&table), None);
    let devices = poll.finish();
    assert_eq!(devices[0].android_version.as_deref(), Some("14"));
    assert_eq!(devices[0].root_available, Some(true));
    assert_eq!(devices[1].root_available, None, "an offline device is listed as it is");

    // The same appearance is filled in from what is kept.
    let mut poll = Poll::begin(&mut table, listing, false);
    assert_eq!(poll.next_probe(&table), None);
    assert_eq!(poll.finish()[0].sdk, Some(34));

    // On request, or with another model, it is probed anew.
    let mut poll = Poll::begin(&mut table, listing, true);
    assert_eq!(poll.next_probe(&table).as_deref(), Some("A"));
    let mut poll = Poll::begin(&mut table, "A device model:M2\n", false);
    assert_eq!(poll.next_probe(&table).as_deref(), Some("A"));
    poll.take_probe(&mut table, Err(gone()));
    assert_eq!(poll.next_probe(&table), None);
    let devices = poll.finish();
    assert_eq!(devices[0].root_available, Some(false));
    assert_eq!(devices[0].root_reason.as_deref(), Some("设备不存在：SER"));

    // A device that was away is probed when it returns.
    let _ = Poll::begin(&mut table, "", false);
    let mut poll = Poll::begin(&mut table, "A device model:M2\n", false);
    assert_eq!(poll.next_probe(&table).as_deref(), Some("A"));
}

#[test]
fn one_failed_poll_cannot_blank_the_list() {
    let mut state = AppState::new();
    let mut table = ProbeTable::new();
    let adb = Ok(Adb::with_program("adb"));
    let mut poll = Poll::begin(&mut table, "SER device\n", false);
    assert_eq!(poll.next_probe(&table).as_deref(), Some("SER"));
    poll.take_probe(&mut table, Ok(details("14")));
    assert_eq!(poll.next_probe(&table), None);
    let version = Some("1.0.41".to_owned());
    let shown = settle_poll(&mut state, &mut table, &adb, version.clone(), Ok(poll.finish()));
    assert_eq!((shown.adb_available, shown.devices.len(), shown.error.is_none()), (true, 1, true));
    assert_eq!(state.last_devices().len(), 1);

    let failed = settle_poll(&mut state, &mut table, &adb, version, Err(gone()));
    assert!(failed.adb_available);
    assert_eq!(failed.devices[0].serial, "SER");
    assert_eq!(failed.devices[0].android_version.as_deref(), Some("14"));
    assert_eq!(failed.error.as_deref(), Some("设备不存在：SER"));
    assert_eq!(failed.adb_version.as_deref(), Some("1.0.41"));
    let mut again = Poll::begin(&mut table, "SER device\n", false);
    assert_eq!(again.next_probe(&table), None, "nothing was forgotten");

    let lost = settle_poll(&mut state, &mut table, &Err(gone()), None, Ok(Vec::new()));
    assert!(!lost.adb_available && lost.devices.is_empty() && lost.error.is_some());
    assert_eq!(state.last_devices().len(), 1);
    let mut anew = Poll::begin(&mut table, "SER device\n", false);
    assert_eq!(anew.next_probe(&table).as_deref(), Some("SER"), "every probe was forgotten");
}

#[test]
fn only_changes_are_announced() {
    let adb = Adb::with_program("adb");
    let devices = |text: &str| {
        let mut table = ProbeTable::new();
        Poll::begin(&mut table, text, false).finish()
    };
    let first = DevicesEvent::with_adb(&adb, None, devices("A device\n"), None);
    assert!(changed(false, &None, &first));
    let last = Some(first.clone());
    assert!(!changed(false, &last, &first));
    assert!(changed(true, &last, &first));
    assert!(changed(false, &last, &DevicesEvent::with_adb(&adb, None, devices("A offline\n"), None)));
    assert!(changed(
        false,
        &last,
        &DevicesEvent::with_adb(&adb, None, devices("A device\n"), Some("x".to_owned()))
    ));
    // A version alone is not worth an announcement.
    assert!(!changed(
        false,
        &last,
        &DevicesEvent::with_adb(&adb, Some("v".to_owned()), devices("A device\n"), None)
    ));
    let none = DevicesEvent::without_adb("gone".to_owned());
    assert!(!none.adb_available);
    assert!(none.devices.is_empty());
    assert!(changed(false, &last, &none));
}

#[test]
fn a_refresh_is_announced_only_when_the_identity_changed() {
    let target = |pids: Vec<i32>| AppTarget {
        input: "com.a".to_owned(),
        kind: AppTargetKind::Package,
        serial: "SER".to_owned(),
        mode: ExecMode::Adb,
        package: Some("com.a".to_owned()),
        uid: Some(1),
        pids,
        found: true,
        reason: None,
        resolved_at_ms: 0,
        prefilter: Prefilter::Host,
    };
    let previous = target(vec![1]);
    assert!(matches!(refresh_active_target(&previous, Ok(target(vec![1]))), Refresh::Quiet(_)));
    assert!(matches!(refresh_active_target(&previous, Ok(target(vec![2]))), Refresh::Announce(_)));
    assert!(matches!(refresh_active_target(&previous, Err(gone())), Refresh::Keep));

    let mut resolver = AppResolver::new(10);
    resolver.store(&previous, 100);
    assert!(!wants_refresh(&None, &resolver, 1_000));
    assert!(!wants_refresh(&Some(target(vec![1])), &resolver, 110));
    assert!(wants_refresh(&Some(target(vec![1])), &resolver, 111));
}

/* ------------------------------ sessions --------------------------------- */

fn request(source: LogSourceKind, mode: ExecMode) -> CaptureRequest {
    CaptureRequest {
        serial: "SER".to_owned(),
        mode,
        source,
        options: SourceOptions::default(),
        capacity: Some(2),
    }
}

#[test]
fn requests_are_checked_before_anything_runs() {
    let adb = || Ok(Adb::with_program("adb"));
    let refused = check_start(&request(LogSourceKind::Dmesg, ExecMode::Adb), Err(gone()));
    assert_eq!(
        refused.map(|_| ()).map_err(|e| e.to_string()),
        Err("参数无效：dmesg 需要 root 模式，请切换到 Root（su -c）后重试".to_owned())
    );
    let missing = check_start(&request(LogSourceKind::Logcat, ExecMode::Adb), Err(gone()));
    assert_eq!(missing.map(|_| ()).map_err(|e| e.kind()), Err("deviceNotFound"));
    let mut custom = request(LogSourceKind::Dmesg, ExecMode::Root);
    custom.options.custom_command = Some("a\0b".to_owned());
    assert_eq!(
        check_start(&custom, adb()).map(|_| ()).map_err(|e| e.to_string()),
        Err("参数无效：自定义命令不能包含空字符或换行".to_owned())
    );
    custom.options.custom_command = Some("x".repeat(513));
    assert_eq!(
        check_start(&custom, adb()).map(|_| ()).map_err(|e| e.to_string()),
        Err("参数无效：自定义命令过长（上限 512 字符）".to_owned())
    );
    custom.options.custom_command = Some("dmesg -w".to_owned());
    assert!(check_start(&custom, adb()).is_ok());
}

#[test]
fn the_followed_application_narrows_the_stream() {
    let mut state = AppState::new();
    let logcat = request(LogSourceKind::Logcat, ExecMode::Adb);
    assert_eq!(
        plan_start(&mut state, &logcat, true),
        "logcat -v threadtime -b main,system,crash"
    );

    let mut target = AppTarget::missing("com.a", AppTargetKind::Package, "SER", ExecMode::Adb, "x");
    target.found = true;
    target.uid = Some(10123);
    target.pids = vec![5, 6];
    state.set_app_target(Some(target.clone()));
    assert_eq!(
        plan_start(&mut state, &logcat, true),
        "logcat -v threadtime -b main,system,crash --uid=10123"
    );
    assert_eq!(state.app_target().map(|t| t.prefilter), Some(Prefilter::Uid));
    assert_eq!(
        plan_start(&mut state, &logcat, false),
        "logcat -v threadtime -b main,system,crash --pid=5 --pid=6"
    );
    assert_eq!(state.app_target().map(|t| t.prefilter), Some(Prefilter::Pid));
    assert_eq!(plan_start(&mut state, &request(LogSourceKind::Kmsg, ExecMode::Root), true), "cat /dev/kmsg");
    assert_eq!(state.app_target().map(|t| t.prefilter), Some(Prefilter::Host));
    assert_eq!(state.app_target_version(), 4);
}

#[test]
fn a_device_is_asked_about_uids_only_where_it_matters_and_once() {
    let mut state = AppState::new();
    let logcat = request(LogSourceKind::Logcat, ExecMode::Adb);
    assert_eq!(uid_question(&state, &logcat), None, "nothing is followed");
    assert!(!uid_pushdown(&mut state, &logcat, Some(ok("--uid"))));
    assert_eq!(state.app_resolver().uid_support(&logcat.serial), None);

    let target = AppTarget::missing("com.a", AppTargetKind::Package, "SER", ExecMode::Adb, "gone");
    state.set_app_target(Some(target));
    assert_eq!(uid_question(&state, &request(LogSourceKind::Dmesg, ExecMode::Root)), None);
    assert_eq!(uid_question(&state, &logcat), Some("logcat --help"));
    assert!(!uid_pushdown(&mut state, &logcat, Some(Err(gone()))));
    assert_eq!(uid_question(&state, &logcat), Some("logcat --help"), "it could not be asked");
    assert!(uid_pushdown(&mut state, &logcat, Some(ok("--uid=<uids>"))));
    assert_eq!(uid_question(&state, &logcat), None);
    assert!(uid_pushdown(&mut state, &logcat, None));
}

#[test]
fn sessions_start_and_stop_independently() {
    let mut state = AppState::new();
    let first = start(&mut state, &request(LogSourceKind::Logcat, ExecMode::Adb), "cmd", 7).expect("started");
    let second =
        open_manual_session(&mut state, "S2", ExecMode::Root, LogSourceKind::Crash, "probe", 0, 8).expect("opened");
    assert_eq!(first.id, "session-1");
    assert_eq!(second.id, "session-2");
    assert_eq!(first.status, SessionStatus::Running);
    assert_eq!(first.started_at_ms, 7);
    assert_eq!(state.session_ids(), vec!["session-1", "session-2"]);
    let summaries = state.session_summaries();
    assert_eq!(summaries[0].stats.capacity, 2);
    assert_eq!(summaries[1].stats.capacity, 1, "a capacity of zero counts as one");

    assert_eq!(stop(&mut state, "session-2").ok(), Some(false), "a collection has no reader");
    assert_eq!(stop(&mut state, "session-2").map_err(|e| e.kind()), Err("sessionNotFound"));
    assert_eq!(state.session_ids(), vec!["session-1"]);
    assert_eq!(stop_all(&mut state), vec!["session-1"]);
    assert_eq!(state.session_count(), 0);
}

#[test]
fn lines_become_records_in_batches() {
    let mut state = AppState::new();
    let session = start(&mut state, &request(LogSourceKind::Logcat, ExecMode::Adb), "cmd", 0).expect("started");
    let mut consumer = Consumer::new(&state, &session.id, build(LogSourceKind::Logcat));
    for index in 0..BATCH_SIZE {
        assert!(consumer.take_events().is_empty());
        consumer.on_line(&mut state, &format!("I/Tag( 1): line {index}"), 0);
    }
    let events = consumer.take_events();
    assert_eq!(events.len(), 1, "a full batch is flushed at once");
    assert_eq!(events[0].records.len(), BATCH_SIZE);
    assert_eq!(events[0].records[0].seq, 1);
    assert_eq!(events[0].records[199].seq, 200);

    consumer.on_line(&mut state, "no grammar at all", 0);
    consumer.on_tick(&mut state);
    let events = consumer.take_events();
    assert_eq!(events[0].records[0].message, "no grammar at all");
    assert!(!events[0].records[0].parsed);
    consumer.finish(&mut state);
    assert!(consumer.take_events().is_empty());

    // The ring kept the newest two, and counted the rest.
    let kept = state.session_records(&session.id, None).expect("records");
    assert_eq!(kept.len(), 2);
    assert_eq!(kept[1].message, "no grammar at all");
    assert_eq!(state.session_records(&session.id, Some(1)).expect("records").len(), 1);
    let stats = state.session_summaries()[0].stats;
    assert_eq!(stats.total_pushed, 201);
    assert_eq!(stats.total_dropped, 199);
    assert!(BATCH_SIZE <= READ_CHANNEL_CAPACITY);
}

#[test]
fn lines_are_received_when_they_come() {
    let mut state = AppState::new();
    let rules = vec![FilterRule::new("w", FilterField::Received, FilterOp::WithinLast, "1")];
    assert!(state.set_filters(rules).is_ok());
    let session = open_manual_session(&mut state, "SER", ExecMode::Adb, LogSourceKind::Logcat, "logcat", 8, 1)
        .expect("opened");
    let mut consumer = Consumer::new(&state, &session.id, build(LogSourceKind::Logcat));
    consumer.on_line(&mut state, "a line", 5_000_000);
    consumer.finish(&mut state);
    let events = consumer.take_events();
    assert_eq!(events[0].records[0].received_at_ms, 5_000_000);

    let mut ingest = Ingestor::new(&session.id, LogSourceKind::Crash);
    assert_eq!(ingest.feed_text(&mut state, "another line\n", 6_000_000), 1, "it has just been received");
    let kept = state.session_records(&session.id, Some(1)).expect("records");
    assert_eq!(kept[0].received_at_ms, 6_000_000);
}

#[test]
fn chunks_lose_their_line_ends_only() {
    assert_eq!(chunk_line(b"a\r\n"), "a");
    assert_eq!(chunk_line(b"a\n"), "a");
    assert_eq!(chunk_line(b"a\r"), "a");
    assert_eq!(chunk_line(b"a\r\r\n"), "a\r");
    assert_eq!(chunk_line(b"\n"), "");
    assert_eq!(chunk_line(&[0xff, b'x', b'\n']), "\u{FFFD}x");
}

#[test]
fn a_session_ends_by_the_strongest_evidence() {
    let text = |s: &str| Some(s.to_owned());
    assert_eq!(
        terminal_status(text("pipe"), true, true, text("err")),
        SessionStatus::Failed("pipe".to_owned())
    );
    assert_eq!(terminal_status(None, true, false, text("err")), SessionStatus::Stopped);
    assert_eq!(terminal_status(None, false, true, text("err")), SessionStatus::Stopped);
    assert_eq!(
        terminal_status(None, false, false, text("err")),
        SessionStatus::Failed("err".to_owned())
    );
    assert_eq!(terminal_status(None, false, false, None), SessionStatus::Stopped);

    let mut tail = StderrTail::new();
    for index in 0..=STDERR_TAIL {
        tail.push(format!("line {index}"));
    }
    let summary = tail.summary().expect("lines");
    assert!(summary.starts_with("line 1\n"), "only the last lines are kept: {summary}");
    assert!(summary.ends_with("line 20"));
}

/* ----------------------------- collection -------------------------------- */

fn collect_request() -> CollectRequest {
    CollectRequest {
        serial: "SER".to_owned(),
        mode: ExecMode::Adb,
        capacity: None,
        duration_ms: Some(4_000),
        interval_ms: Some(2_000),
    }
}

#[test]
fn collections_open_sessions_of_their_kind() {
    let mut state = AppState::new();
    let crash = start_crash(&mut state, &collect_request(), 1).expect("opened");
    assert_eq!(crash.source, LogSourceKind::Crash);
    assert_eq!(
        crash.command,
        "probe: crash-buffer, crash-events, crash-kernel, crash-context, tombstone-dir, dropbox-dir, anr-dir"
    );
    assert_eq!(crash.capacity, 100_000);
    let recovery = start_recovery(&mut state, &collect_request(), 1).expect("opened");
    assert_eq!(
        recovery.command,
        "probe: recovery-log, recovery-last-log, recovery-kernel, recovery-pstore"
    );
    let boot = start_boot(&mut state, &collect_request(), 1).expect("opened");
    assert_eq!(boot.source, LogSourceKind::Boot);
    assert_eq!(Run::Boot.label(), "启动日志");
}

#[test]
fn a_profile_selects_the_probes() {
    let buffers = "main: ring buffer is 2 MiB\ncrash: ring buffer is 2 MiB\nkernel: ring buffer is 2 MiB\n";
    let modern = detect(ok("5.10.302-qgki\n"), ok(buffers));
    assert_eq!(modern.era, KernelEra::Pstore);
    assert_eq!(
        modern.notes,
        vec![
            "内核 5.10.302-qgki（5.10）：≥3.5 内核：pstore/ramoops（/sys/fs/pstore）",
            "可用 logcat 缓冲区：main / crash / kernel"
        ]
    );
    let ids = |run: Run| -> Vec<&'static str> { run.probes(&modern).iter().map(|probe| probe.id).collect() };
    assert_eq!(ids(Run::Boot), vec!["boot-kernel", "boot-pstore", "boot-props"]);
    assert!(!ids(Run::Crash).contains(&"crash-events"));

    let legacy = detect(ok("3.4.0"), Err(gone()));
    assert!(keep_probe("boot-last-kmsg", &legacy) && !keep_probe("boot-pstore", &legacy));
    assert!(keep_probe("boot-dmesg", &legacy) && !keep_probe("boot-kernel", &legacy));
    let unknown = detect(Err(gone()), ok(""));
    assert!(keep_probe("boot-last-kmsg", &unknown) && keep_probe("boot-pstore", &unknown));
    assert_eq!(
        unknown.notes[0],
        "无法读取内核版本（uname -r 无输出）：将同时尝试 pstore 与 /proc/last_kmsg"
    );

    let outcome = profile_outcome(&modern);
    assert_eq!(outcome.id, "device-profile");
    assert_eq!(
        outcome.label,
        "设备能力探测（内核 ≥3.5 内核：pstore/ramoops（/sys/fs/pstore））"
    );
    assert_eq!(outcome.status, ProbeStatus::Found);
    assert!(outcome.detail.is_some_and(|text| text.contains("；")));
    assert!(profile_outcome(&unknown).hint.is_none());
}

fn probe(id: &str) -> Probe {
    match crash_probes().iter().chain(boot_probes()).copied().find(|probe| probe.id == id) {
        Some(probe) => probe,
        None => unreachable!("no probe {id}"),
    }
}

fn collecting() -> (AppState, Ingestor) {
    let mut state = AppState::new();
    let session = start_crash(&mut state, &collect_request(), 1).expect("opened");
    let ingest = Ingestor::new(&session.id, LogSourceKind::Crash);
    (state, ingest)
}

#[test]
fn a_probe_contributes_records_and_crashes() {
    let (mut state, mut ingest) = collecting();
    let text = "05-01 10:00:00.123  1234  1300 E AndroidRuntime: FATAL EXCEPTION: main\n\nplain line\n";
    let run = ProbeRun::begin(probe("crash-buffer"), &output(text, "warned\nmore", 0), &mut ingest, &mut state, 0);
    assert_eq!(run.next_command(), None);
    let outcome = run.outcome();
    assert_eq!(outcome.status, ProbeStatus::Found);
    assert_eq!(outcome.records, 2, "a blank line is no record");
    assert_eq!(outcome.detail.as_deref(), Some("warned"));
    assert_eq!(outcome.hint, None);
    assert_eq!(ingest.accepted(), 2);

    let events = ingest.take_events();
    assert_eq!(events.len(), 2);
    assert!(matches!(&events[0], CollectEvent::Records(event) if event.records.len() == 2));
    let CollectEvent::Crashes(crashes) = &events[1] else {
        unreachable!("the crash is reported behind its record")
    };
    assert_eq!(crashes.session_id, "session-1");
    assert_eq!(crashes.entries.len(), 1);
    assert_eq!(crashes.entries[0].seq, 1);
    assert_eq!(state.session_records("session-1", None).map(|r| r.len()).ok(), Some(2));
}

#[test]
fn a_listing_reads_its_files_back() {
    let (mut state, mut ingest) = collecting();
    let listing = output("tombstone_00\ntombstone_01\ntombstone_02\ntombstone_03\n", "", 0);
    let mut run = ProbeRun::begin(probe("tombstone-dir"), &listing, &mut ingest, &mut state, 0);
    assert_eq!(run.next_command().as_deref(), Some("cat /data/tombstones/tombstone_03"));
    run.take_file(ok("Fatal signal 11\n"), &mut ingest, &mut state, 0);
    assert_eq!(run.next_command().as_deref(), Some("cat /data/tombstones/tombstone_02"));
    run.take_file(Ok(output("", "Permission denied", 1)), &mut ingest, &mut state, 0);
    run.take_file(Err(gone()), &mut ingest, &mut state, 0);
    assert_eq!(run.next_command(), None);
    let outcome = run.outcome();
    assert_eq!(outcome.records, 1);
    assert_eq!(outcome.files, vec!["tombstone_03", "tombstone_02"]);
    assert_eq!(outcome.detail.as_deref(), Some("tombstone_01: 设备不存在：SER"));

    let refused = output("", "ls: /sys/fs/pstore: Permission denied", 1);
    let run = ProbeRun::begin(probe("boot-pstore"), &refused, &mut ingest, &mut state, 0);
    assert_eq!(run.next_command().as_deref(), Some("cat /sys/fs/pstore/console-ramoops-0"));
    assert_eq!(run.outcome().status, ProbeStatus::Denied);

    let run = ProbeRun::begin(probe("anr-dir"), &output("a b\n", "", 0), &mut ingest, &mut state, 0);
    assert_eq!(run.outcome().detail.as_deref(), Some("目录为空"));

    let failed = ProbeRun::failed(probe("anr-dir"), &gone());
    assert_eq!(failed.status, ProbeStatus::Failed);
    assert_eq!(failed.detail.as_deref(), Some("设备不存在：SER"));
    assert!(failed.hint.is_some());
}

#[test]
fn long_output_is_cut_to_its_newest_lines() {
    let (mut state, mut ingest) = collecting();
    let text: String = (0..MAX_PROBE_LINES + 5).map(|n| format!("line {n}\n")).collect();
    let run = ProbeRun::begin(probe("crash-buffer"), &output(&text, "", 0), &mut ingest, &mut state, 0);
    let outcome = run.outcome();
    assert_eq!(outcome.records, MAX_PROBE_LINES);
    assert_eq!(outcome.detail.as_deref(), Some("输出超过 4000 行，仅保留最新部分"));
    let kept = state.session_records("session-1", Some(1)).expect("records");
    assert_eq!(kept[0].message, "line 4004");
}

#[test]
fn a_repeated_poll_adds_nothing() {
    assert!(MAX_PROBE_LINES < TAIL_MEMORY);
    let (mut state, mut ingest) = collecting();
    let profile = detect(ok("5.10.0"), ok("kernel: ring buffer is 1 MiB\n"));
    let mut boot = BootRun::begin(Some(4_000), None, &profile, &Vec::new());
    assert_eq!(boot.poll_command(), "logcat -d -v threadtime -b kernel");
    let ring = "<6>[    1.000000] a: b\n<6>[    2.000000] c: d\n";
    let progress = boot.tick(99);
    assert_eq!((progress.done, progress.total, progress.ends_at_ms), (1, 2, 99));
    assert!(boot.take_output(ok(ring), &mut ingest, &mut state, 0));
    assert_eq!(ingest.accepted(), 2);
    assert!(boot.take_boot_state(ok("\n0\n"), false));
    let _ = boot.tick(99);
    assert!(boot.take_output(ok(ring), &mut ingest, &mut state, 0));
    assert_eq!(ingest.accepted(), 2, "nothing new");
    let grown = format!("{ring}<6>[    3.000000] e: f\n");
    assert!(boot.take_output(ok(&grown), &mut ingest, &mut state, 0));
    assert_eq!(ingest.accepted(), 3);
    assert!(!boot.take_boot_state(ok("1\n"), false));
    let outcome = boot.outcome();
    assert_eq!(outcome.status, ProbeStatus::Found);
    assert_eq!(outcome.records, 3);
    assert_eq!(outcome.label, "轮询内核缓冲 2 次（设备已启动完成）");
    assert_eq!(outcome.detail, None);
}

#[test]
fn polls_align_with_the_snapshot_and_stop_with_a_note() {
    let (mut state, mut ingest) = collecting();
    let profile = detect(ok("3.4.0"), ok(""));
    let dmesg = ProbeRun::begin(probe("boot-dmesg"), &output("<6>[ 1.0] a: b\n", "", 0), &mut ingest, &mut state, 0);
    let outcomes = vec![dmesg.outcome()];
    let mut boot = BootRun::begin(Some(2_000), None, &profile, &outcomes);
    assert_eq!(boot.poll_command(), "dmesg");
    assert!(boot.take_output(ok("<6>[ 1.0] a: b\n"), &mut ingest, &mut state, 0));
    assert_eq!(ingest.accepted(), 1, "the first poll only learns the tail");
    let _ = boot.tick(0);
    assert!(!boot.take_boot_state(Err(gone()), true), "the window is over");
    let outcome = boot.outcome();
    assert_eq!(outcome.status, ProbeStatus::Empty);
    assert_eq!(outcome.label, "轮询内核缓冲 1 次（窗口 2 秒结束）");
    assert_eq!(
        outcome.detail.as_deref(),
        Some("快照已包含内核缓冲的全部内容，轮询期间没有新增")
    );

    let mut denied = BootRun::begin(None, None, &profile, &Vec::new());
    let reply = Ok(output("", "dmesg: klogctl: Operation not permitted", 1));
    assert!(!denied.take_output(reply, &mut ingest, &mut state, 0));
    assert!(denied.outcome().detail.is_some_and(|text| text.contains("dmesg_restrict")));
    let mut broken = BootRun::begin(None, None, &profile, &Vec::new());
    assert!(!broken.take_output(Err(gone()), &mut ingest, &mut state, 0));
    assert_eq!(broken.outcome().detail.as_deref(), Some("轮询失败：设备不存在：SER"));

    let mut booted = BootRun::begin(None, None, &profile, &Vec::new());
    let _ = booted.tick(0);
    assert!(!booted.take_boot_state(ok("1\n"), false));
    assert_eq!(booted.outcome().label, "设备已启动完成，仅采集一次内核缓冲");
}

#[test]
fn a_finished_collection_stores_its_report() {
    let (mut state, mut ingest) = collecting();
    assert!(state.collect_report("session-1").is_none());
    let run = ProbeRun::begin(probe("crash-buffer"), &output("", "", 0), &mut ingest, &mut state, 0);
    let outcomes = vec![run.outcome()];
    let (report, status) =
        finish_collection(&mut ingest, &mut state, "session-1", LogSourceKind::Crash, outcomes, 9);
    assert_eq!(status, SessionStatus::Stopped);
    assert_eq!(report.finished_at_ms, 9);
    assert_eq!(state.session_summaries()[0].session.status, SessionStatus::Stopped);
    assert!(state.collect_report("session-1").is_some_and(|kept| kept.failure.is_none()));

    let (_, status) = fail_collection(&mut state, "session-1", LogSourceKind::Crash, "no adb", 10);
    assert_eq!(status, SessionStatus::Failed("no adb".to_owned()));
    let kept = state.collect_report("session-1").expect("report");
    assert_eq!(kept.failure.as_deref(), Some("no adb"));
    assert_eq!(state.collect_reports().len(), 1, "one report per session");

    for id in ["session-10", "session-2"] {
        let _ = fail_collection(&mut state, id, LogSourceKind::Boot, "x", 1);
    }
    let order: Vec<String> = state.collect_reports().into_iter().map(|report| report.session_id).collect();
    assert_eq!(order, vec!["session-1", "session-2", "session-10"], "newest session id last");
}
