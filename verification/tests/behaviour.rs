//! Laws on concrete values, errors and labels.

use droidlog::adb::locate::AdbSource;
use droidlog::adb::Adb;
use droidlog::commands::{
    app_info, clear_app_target, drain_records, get_app_target, get_collect_report, get_filters, list_devices,
    list_running_apps, list_sessions, list_sources, probe_adb, refresh_devices, set_app_target, set_filters,
    stop_all_captures, stop_capture, wants_probe,
};
use droidlog::clock::clamp_millis;
use droidlog::crash::{classify, is_clean_boot_note, looks_like_permission_denied, CrashKind};
use droidlog::device::probe::validate_package;
use droidlog::device::resolve::{AppTarget, AppTargetKind};
use droidlog::device::{parse_device_line, DeviceInfo, DeviceProbe, DeviceState};
use droidlog::error::DroidLogError;
use droidlog::executor::root::probe_plan;
use droidlog::executor::{CommandPlan, ExecMode, ExecOutput, ExecTarget};
use droidlog::filter::{compare_text, FilterField, FilterOp, FilterRule, FilterSet};
use droidlog::parser::logcat::parse_uid_token;
use droidlog::parser::{parse_auto, parse_logcat_threadtime, LogLevel, LogRecord};
use droidlog::process::{open_manual_session, SessionProgress, SessionStatus};
use droidlog::ring::RingBuffer;
use droidlog::source::shell::{join, quote};
use droidlog::source::special::SpecialSource;
use droidlog::source::{
    spec, validate_custom_command, LogSource, LogSourceKind, LogcatBuffer, ParserKind, SourceOptions,
};
use droidlog::state::AppState;

fn text(s: &str) -> String {
    s.to_owned()
}

#[test]
fn every_error_has_its_kind_and_message() {
    let io = || std::io::Error::new(std::io::ErrorKind::NotFound, "gone");
    let utf8 = match String::from_utf8(vec![0xff]) {
        Err(error) => error,
        Ok(_) => unreachable!("not UTF-8"),
    };
    let json = match serde_json::from_str::<u8>("x") {
        Err(error) => error,
        Ok(_) => unreachable!("not JSON"),
    };
    let utf8_text = utf8.to_string();
    let json_text = json.to_string();
    let cases: Vec<(DroidLogError, &str, String, Option<&str>, bool)> = vec![
        (DroidLogError::AdbUnavailable(text("x")), "adbUnavailable", text("adb 不可用：x"), None, true),
        (
            DroidLogError::command_failed("adb x", -1, "bad"),
            "adbCommandFailed",
            text("adb 命令失败（adb x，退出码 -1）：bad"),
            Some("bad"),
            false,
        ),
        (
            DroidLogError::command_failed("adb x", 1, ""),
            "adbCommandFailed",
            text("adb 命令失败（adb x，退出码 1）："),
            None,
            false,
        ),
        (DroidLogError::DeviceNotFound(text("S")), "deviceNotFound", text("设备不存在：S"), None, true),
        (
            DroidLogError::RootUnavailable { serial: text("S"), reason: text("no su") },
            "rootUnavailable",
            text("设备 S 无法使用 root：no su"),
            Some("no su"),
            true,
        ),
        (DroidLogError::spawn("adb", io()), "spawn", text("无法启动进程 `adb`：gone"), None, true),
        (
            DroidLogError::PipeUnavailable(text("x")),
            "pipeUnavailable",
            text("无法读取进程输出：x"),
            None,
            true,
        ),
        (DroidLogError::from(io()), "io", text("IO 错误：gone"), None, false),
        (DroidLogError::from(utf8), "utf8", format!("文本编码错误：{utf8_text}"), None, false),
        (DroidLogError::from(json), "json", format!("JSON 错误：{json_text}"), None, false),
        (DroidLogError::InvalidFilter(text("x")), "invalidFilter", text("过滤规则无效：x"), None, false),
        (DroidLogError::InvalidInput(text("x")), "invalidInput", text("参数无效：x"), None, false),
        (DroidLogError::UnknownSource(text("x")), "unknownSource", text("未知采集源：x"), None, false),
        (DroidLogError::SessionNotFound(text("x")), "sessionNotFound", text("采集会话不存在：x"), None, false),
        (
            DroidLogError::SessionAlreadyRunning(text("x")),
            "sessionAlreadyRunning",
            text("采集会话已在运行：x"),
            None,
            false,
        ),
        (DroidLogError::Internal(text("x")), "internal", text("内部错误：x"), Some("x"), false),
    ];
    for (error, kind, message, detail, environmental) in cases {
        assert_eq!(error.kind(), kind);
        assert_eq!(error.to_string(), message);
        assert_eq!(error.detail().as_deref(), detail);
        assert_eq!(error.is_environmental(), environmental);
        let payload = error.payload();
        assert_eq!(payload.kind, kind);
        assert_eq!(payload.message, message);
        assert_eq!(payload.detail.as_deref(), detail);
        assert_eq!(payload.environmental, environmental);
    }
}

#[test]
fn the_clock_is_cut_to_its_range() {
    assert_eq!(clamp_millis(None), 0);
    assert_eq!(clamp_millis(Some(5)), 5);
    assert_eq!(clamp_millis(Some(u128::from(u64::MAX))), u64::MAX);
    assert_eq!(clamp_millis(Some(u128::from(u64::MAX) + 1)), u64::MAX);
}

#[test]
fn quoted_arguments_keep_their_words() {
    assert_eq!(quote("'"), "''\\'''");
    assert_eq!(join(&[text("a b"), text(""), text("it's")]), "'a b' '' 'it'\\''s'");
    assert!(validate_package("com.example_1").is_ok());
    assert_eq!(quote("com.example_1"), "com.example_1");
}

#[test]
fn the_command_is_the_last_argument_in_either_mode() {
    for mode in ExecMode::all() {
        let plan = ExecTarget::new(mode, Some("S"), "adb").plan("a; b");
        assert_eq!(plan.args.last().map(String::as_str), Some("a; b"));
        assert_eq!(mode.is_privileged(), plan.args.contains(&text("su")));
    }
    let plan = probe_plan("adb", None);
    assert_eq!(plan.args, vec!["shell", "su", "-c", "id -u; id"]);
    assert_eq!(ExecMode::Root.to_string(), "root");
    assert_eq!(ExecMode::default(), ExecMode::Adb);
}

#[test]
fn outputs_are_decoded_and_settled() {
    let output = ExecOutput::of_bytes(b"ok\n", &[0xff], None);
    assert_eq!(output.stdout, "ok\n");
    assert_eq!(output.stderr, "\u{FFFD}");
    assert_eq!(output.code, -1);
    let plan = CommandPlan { program: text("adb"), args: vec![text("a b")] };
    let failed = plan.settle(ExecOutput { stdout: text(""), stderr: text(" no \n"), code: 2 });
    assert_eq!(
        failed.map(|_| ()).map_err(|e| e.to_string()),
        Err(text("adb 命令失败（adb \"a b\"，退出码 2）：no"))
    );
    assert!(plan.settle(ExecOutput { stdout: text("x"), stderr: text(""), code: 0 }).is_ok());
    assert_eq!(plan.overrun(20).to_string(), "内部错误：`adb \"a b\"` 在 20s 内没有返回");
}

#[test]
fn a_custom_command_is_honoured_only_where_supported() {
    let options = SourceOptions { custom_command: Some(text("id")), ..SourceOptions::default() };
    let crash = SpecialSource::new(LogSourceKind::Crash);
    assert!(!crash.spec().supports_custom_command);
    assert_eq!(crash.command(&options), spec(LogSourceKind::Crash).default_command);
    for (command, fault) in [
        ("  ", "自定义命令不能为空"),
        ("a\nb", "自定义命令不能包含空字符或换行"),
        ("a\rb", "自定义命令不能包含空字符或换行"),
    ] {
        assert_eq!(
            validate_custom_command(command).map_err(|e| e.to_string()),
            Err(format!("参数无效：{fault}"))
        );
    }
    assert!(validate_custom_command(&"x".repeat(512)).is_ok());
    assert!(validate_custom_command(&"中".repeat(513)).is_err());
}

#[test]
fn labels_and_names() {
    assert_eq!(ParserKind::Auto.label(), "自动识别");
    assert_eq!(LogcatBuffer::Stats.as_str(), "stats");
    assert_eq!(LogcatBuffer::defaults().len(), 3);
    assert_eq!(FilterField::all().len(), 9);
    assert_eq!(FilterOp::all().len(), 8);
    assert_eq!(FilterField::Received.label(), "接收时间");
    assert_eq!(FilterOp::WithinLast.label(), "最近 N 秒");
    assert_eq!(AppTargetKind::Package.label(), "包名");
    assert_eq!(CrashKind::Anr.to_string(), "ANR 无响应");
    for level in ["warning", " ASSERT ", "?", ""] {
        assert!(LogLevel::from_name(level).is_some());
    }
    assert_eq!(LogLevel::from_logcat_char(LogLevel::Fatal.badge()), LogLevel::Fatal);
}

#[test]
fn the_specific_family_wins() {
    assert_eq!(
        classify("Kernel panic - not syncing: watchdog: lmkd killed system_server"),
        Some(CrashKind::KernelPanic)
    );
    assert_eq!(classify("lmkd: watchdog: Kill 'x'"), Some(CrashKind::LowMemory));
    assert_eq!(classify("SYSTEM_SERVER: FATAL SIGNAL 6"), Some(CrashKind::SystemServer));
    assert_eq!(classify("KERNEL PANIC 内核"), Some(CrashKind::KernelPanic), "case does not matter");
    assert!(is_clean_boot_note("Record Is Empty"));
    assert!(!is_clean_boot_note("crash"));
    assert!(looks_like_permission_denied("ACCESS DENIED"));
}

#[test]
fn no_line_is_lost() {
    for line in ["", "   ", "--------- beginning of main", "05-01 10:00:00.123  1  2 E T: m", "<3>[ 1.5] a: b"] {
        let record = parse_auto(LogSourceKind::Boot, line, 3);
        assert_eq!(record.raw, line);
        assert_eq!(record.seq, 3);
        assert_eq!(record.source, LogSourceKind::Boot);
        assert!(record.parsed || record.message == line);
    }
}

#[test]
fn odd_threadtime_lines() {
    // A leap second is a time, and a sign is part of a number.
    assert!(parse_logcat_threadtime("09-01 23:59:60  1  2 I T: m", 1).is_some());
    assert!(parse_logcat_threadtime("09-01 23:59:61  1  2 I T: m", 1).is_none());
    assert!(parse_logcat_threadtime("09-01 12:34  1  2 I T: m", 1).is_none());
    assert!(parse_logcat_threadtime("09-01 12:34:56  1  2 X T: m", 1).is_none());
    assert!(parse_logcat_threadtime("09-01 12:34:56  1  2 I T no colon", 1).is_none());
    assert_eq!(parse_uid_token("u0_a99999999999"), None);
    assert_eq!(parse_uid_token("u0_a2147483647"), Some(i32::MAX), "a uid stays in range");
    assert_eq!(parse_uid_token(" 7 "), Some(7));
}

#[test]
fn export_lines_show_what_is_known() {
    let Some(record) = parse_logcat_threadtime("09-01 12:34:56.789  12  34 W Tag: hello", 1) else {
        unreachable!("sample must parse")
    };
    assert_eq!(record.to_export_line(), "09-01 12:34:56.789 W 12 34 Tag: hello");
}

#[test]
fn a_ring_keeps_the_newest() {
    for capacity in 1..5_usize {
        for pushed in 0..8_u64 {
            let mut ring = RingBuffer::new(capacity);
            for value in 0..pushed {
                ring.push(value);
            }
            let kept = pushed.min(capacity as u64);
            let expected: Vec<u64> = (pushed - kept..pushed).collect();
            assert_eq!(ring.snapshot(), expected);
            assert_eq!(ring.stats().total_pushed, pushed);
            assert_eq!(ring.stats().total_dropped, pushed - kept);
        }
    }
}

#[test]
fn filters_use_the_regex_engine_and_the_clock_they_are_given() {
    let mut record = LogRecord::new(LogSourceKind::Logcat, 1, "raw");
    record.message = text("Straße 42");
    record.received_at_ms = 10_000;
    let compile = |op, value: &str, case_sensitive| {
        let mut rule = FilterRule::new("r", FilterField::Message, op, value);
        rule.case_sensitive = case_sensitive;
        FilterSet::compile(&[rule])
    };
    let accepts = |op, value: &str, case_sensitive| match compile(op, value, case_sensitive) {
        Ok(set) => set.matches_at(&record, 10_000),
        Err(error) => unreachable!("{error:?}"),
    };
    assert!(accepts(FilterOp::Regex, r"^stra\w+ \d{2}$", false));
    assert!(!accepts(FilterOp::Regex, r"^stra\w+ \d{2}$", true));
    assert!(!accepts(FilterOp::Regex, r"\d{3}", false));
    assert!(accepts(FilterOp::NotEquals, "straße", false));
    assert!(accepts(FilterOp::Equals, "STRAßE 42", false));
    assert!(accepts(FilterOp::NotContains, "SSE", true));
    assert!(!accepts(FilterOp::In, "a,,b", false));
    assert!(accepts(FilterOp::In, "x, STRAßE 42 ,y", true), "membership never looks at case");

    let window = match compile(FilterOp::WithinLast, " 5 ", false) {
        Ok(set) => set,
        Err(error) => unreachable!("{error:?}"),
    };
    assert!(window.matches_at(&record, 15_000));
    assert!(!window.matches_at(&record, 15_001));
    assert_eq!(window.apply_at(&[record.clone(), record.clone()], 15_000).len(), 2);
    assert!(window.apply_at(&[record.clone()], 15_001).is_empty());
    assert_eq!(window.clone().len(), 1);

    let cs = |s: &str| -> Vec<char> { s.chars().collect() };
    assert!(compare_text(FilterOp::Contains, &cs("abc"), &cs("bc")));
    assert!(!compare_text(FilterOp::NotEquals, &cs("a"), &cs("a")));
}

#[test]
fn faulty_rules_say_why() {
    for (op, value, reason) in [
        (FilterOp::MinLevel, "loud", "日志级别无效：loud"),
        (FilterOp::In, "", "规则 r 的比较值为空"),
        (FilterOp::WithinLast, "x", "时间窗口需要秒数：x"),
        (FilterOp::WithinLast, "0", "时间窗口必须大于 0 秒"),
    ] {
        let rules = [FilterRule::new("r", FilterField::Message, op, value)];
        assert_eq!(
            FilterSet::compile(&rules).map(|_| ()).map_err(|e| e.to_string()),
            Err(format!("过滤规则无效：{reason}"))
        );
    }
    let rules = [FilterRule::new("r", FilterField::Message, FilterOp::Regex, "([")];
    let Err(error) = FilterSet::compile(&rules) else {
        unreachable!("no regular expression")
    };
    let expected = match regex::Regex::new("(?i)([") {
        Err(cause) => format!("过滤规则无效：正则无效：{cause}"),
        Ok(_) => unreachable!("no regular expression"),
    };
    assert_eq!(error.to_string(), expected);
    // A fault of a disabled rule does not matter.
    let mut rule = FilterRule::new("r", FilterField::Message, FilterOp::Regex, "([");
    rule.enabled = false;
    assert!(FilterSet::compile(&[rule]).is_ok());
}

#[test]
fn device_lines_keep_what_they_say() {
    let Some(device) = parse_device_line("S recovery model:A_B device:d usb:1-1 odd") else {
        unreachable!("a device line")
    };
    assert_eq!(device.model.as_deref(), Some("A B"));
    assert_eq!(device.device.as_deref(), Some("d"));
    assert!(device.recovery);
    assert!(parse_device_line("lonely").is_none());
    let mut device = DeviceInfo::new("S", DeviceState::Device, "device");
    device.sdk = Some(30);
    assert_eq!(device.android_label().as_deref(), Some("SDK 30"));
}

#[test]
fn commands_adapt_the_state() {
    let mut state = AppState::new();
    let info = app_info("droidlog", "0.1.0", "linux", "x86_64", false);
    assert_eq!((info.name.as_str(), info.arch.as_str(), info.debug), ("droidlog", "x86_64", false));

    let probe = probe_adb(Ok(Adb::with_program("adb")), Some(text("v")), vec![text("c")]);
    assert!(probe.available);
    assert_eq!(probe.source, Some(AdbSource::EnvOverride));
    let probe = probe_adb(Err(DroidLogError::AdbUnavailable(text("x"))), Some(text("v")), Vec::new());
    assert_eq!(probe.error.as_deref(), Some("adb 不可用：x"));
    assert_eq!(probe.version, None);

    let mut device = DeviceInfo::new("S", DeviceState::Device, "device");
    assert!(wants_probe(&device, Some(true)));
    assert!(!wants_probe(&device, None));
    list_devices(&mut device, Err(DroidLogError::Internal(text("x"))));
    assert_eq!(device.root_available, None);
    let details = DeviceProbe {
        android_version: Some(text("14")),
        sdk: None,
        root_available: false,
        root_reason: Some(text("no")),
    };
    list_devices(&mut device, Ok(details));
    assert_eq!(device.root_available, Some(false));

    assert_eq!(list_sources(true, false).iter().filter(|entry| entry.available).count(), 5);
    assert_eq!(list_sources(true, true).iter().filter(|entry| entry.available).count(), 1);
    assert!(refresh_devices(&mut state));
    assert_eq!(state.take_poll_requests(), (true, true));
    assert_eq!(state.take_poll_requests(), (false, false));

    assert!(set_filters(&mut state, vec![FilterRule::min_level(LogLevel::Warn)]).is_ok());
    assert_eq!(get_filters(&state).len(), 1);

    assert!(clear_app_target(&mut state, "com.a"));
    let target = AppTarget::missing("com.a", AppTargetKind::Package, "S", ExecMode::Adb, "x");
    assert!(set_app_target(&mut state, Ok(target)).is_ok());
    assert_eq!(get_app_target(&state).map(|t| t.input), Some(text("com.a")));
    assert!(!clear_app_target(&mut state, "  "));
    assert!(get_app_target(&state).is_none());
    assert!(set_app_target(&mut state, Err(DroidLogError::Internal(text("x")))).is_err());

    let ps = ExecOutput { stdout: text("USER PID S NAME\nu0_a1 7 0 S com.b\n"), stderr: text(""), code: 0 };
    assert_eq!(list_running_apps(Ok(ps)).map(|apps| apps.len()).ok(), Some(1));

    let session = open_manual_session(&mut state, "S", ExecMode::Adb, LogSourceKind::Boot, "c", 4, 1).expect("opened");
    let progress = SessionProgress { label: text("p"), ends_at_ms: 2, done: 1, total: 3 };
    state.set_session_progress(&session.id, progress.clone());
    state.set_session_progress("nobody", progress.clone());
    state.set_session_status(&session.id, SessionStatus::Failed(text("f")));
    let sessions = list_sessions(&state);
    assert_eq!(sessions[0].session.progress, Some(progress));
    assert_eq!(sessions[0].session.status, SessionStatus::Failed(text("f")));
    assert_eq!(drain_records(&state, &session.id, Some(1)).map(|r| r.len()).ok(), Some(0));
    assert!(get_collect_report(&state, &session.id).is_none());
    assert_eq!(stop_capture(&mut state, &session.id).ok(), Some(false));
    assert_eq!(stop_all_captures(&mut state), (0, Vec::new()));

    state.set_last_devices(vec![DeviceInfo::new("S", DeviceState::Device, "device")]);
    assert_eq!(state.last_devices().len(), 1);
}
