//! Resolving an application into its identities.

use droidlog::device::resolve::{
    package_from_cmdline, parse_ps, parse_uid_from_cmd_package, parse_uid_from_package_list, pids_for_package,
    pids_for_uid, running_apps, uid_from_user, AppResolver, AppTarget, AppTargetKind, Prefilter,
};
use droidlog::executor::ExecMode;
use droidlog::parser::LogRecord;
use droidlog::source::LogSourceKind;

const PS: &str = "\
USER      PID   PPID  VSZ    RSS  WCHAN    ADDR  S NAME
root        1     0   12345  1234 0        0     S init
system   1612     1  234567 23456 0        0     S system_server
u0_a123  5063  1612 1234567 45678 0       0     S com.example.app
u0_a123  5602  1612 1234567 45678 0       0     S com.example.app:remote
u0_a200  6000  1612 1234567 45678 0       0     S com.other.app
u10_a45  7000  1612 1234567 45678 0       0     S com.work.profile
";

#[test]
fn ps_columns_come_from_the_header() {
    let rows = parse_ps(PS);
    assert_eq!(rows.len(), 6, "every data row must parse: {rows:?}");
    assert_eq!(rows.first().map(|r| r.pid), Some(1));
    assert_eq!(rows.first().map(|r| r.name.as_str()), Some("init"));
    assert_eq!(rows.get(1).map(|r| r.user.as_str()), Some("system"));
}

#[test]
fn pid_is_not_read_from_the_ppid_column() {
    // `PPID` contains `PID`; a naive `find` would return the parent's id for
    // every row, which is exactly the kind of bug that looks like "the
    // filter matches the wrong app".
    let rows = parse_ps(PS);
    let app = rows.iter().find(|row| row.name == "com.example.app");
    assert_eq!(app.map(|row| row.pid), Some(5063));
}

#[test]
fn package_pids_include_remote_processes() {
    let rows = parse_ps(PS);
    assert_eq!(pids_for_package(&rows, "com.example.app"), vec![5063, 5602]);
    assert_eq!(pids_for_package(&rows, "com.other.app"), vec![6000]);
    assert!(pids_for_package(&rows, "com.absent").is_empty());
}

#[test]
fn package_match_does_not_cross_into_a_similar_name() {
    // `com.example.app2` must not be captured by the `com.example.app` prefix.
    let rows = parse_ps(
        "USER PID PPID S NAME\n\
         u0_a123 1 0 S com.example.app\n\
         u0_a123 2 0 S com.example.app2\n",
    );
    assert_eq!(pids_for_package(&rows, "com.example.app"), vec![1]);
}

#[test]
fn uid_parsing_covers_app_users_and_daemons() {
    assert_eq!(uid_from_user("u0_a123"), Some(10123));
    assert_eq!(uid_from_user("u10_a45"), Some(1_010_045));
    assert_eq!(uid_from_user("root"), Some(0));
    assert_eq!(uid_from_user("system"), Some(1000));
    assert_eq!(uid_from_user("10123"), Some(10123));
    assert_eq!(uid_from_user("weird"), None);
}

#[test]
fn uid_lookup_returns_running_processes() {
    let rows = parse_ps(PS);
    assert_eq!(pids_for_uid(&rows, 10123), vec![5063, 5602]);
    assert_eq!(pids_for_uid(&rows, 1_010_045), vec![7000]);
    assert!(pids_for_uid(&rows, 99999).is_empty());
}

#[test]
fn uid_from_cmd_package_is_read() {
    let text = "package:com.android.phone uid:1001\npackage:com.example.app uid:10123\n";
    assert_eq!(parse_uid_from_cmd_package(text, "com.example.app"), Some(10123));
    assert_eq!(parse_uid_from_cmd_package(text, "com.absent"), None);
}

#[test]
fn uid_from_packages_list_is_read() {
    let text = "com.example.app 10123 0 /data/user/0/com.example.app default:targetSdkVersion=34 none 0 1 0\n\
                com.other.app 10200 1 /data/user/0/com.other.app default:targetSdkVersion=33 none 0 0 0\n";
    assert_eq!(parse_uid_from_package_list(text, "com.other.app"), Some(10200));
    assert_eq!(parse_uid_from_package_list(text, "com.absent"), None);
}

#[test]
fn cmdline_yields_the_base_package() {
    assert_eq!(
        package_from_cmdline("com.example.app\0"),
        Some("com.example.app".to_owned())
    );
    assert_eq!(
        package_from_cmdline("com.example.app:remote\0"),
        Some("com.example.app".to_owned())
    );
}

#[test]
fn cmdline_rejects_native_processes() {
    assert_eq!(package_from_cmdline("/system/bin/surfaceflinger\0"), None);
    assert_eq!(package_from_cmdline("[kworker/0:1]\0"), None);
    assert_eq!(package_from_cmdline("\0"), None);
    assert_eq!(package_from_cmdline(""), None);
}

fn target(pids: Vec<i32>, uid: Option<i32>, prefilter: Prefilter) -> AppTarget {
    AppTarget {
        input: "x".to_owned(),
        kind: AppTargetKind::Package,
        serial: "SER".to_owned(),
        mode: ExecMode::Adb,
        package: Some("com.example.app".to_owned()),
        uid,
        pids,
        found: true,
        reason: None,
        resolved_at_ms: 0,
        prefilter,
    }
}

fn record(pid: Option<i32>) -> LogRecord {
    let mut record = LogRecord::new(LogSourceKind::Logcat, 1, "raw");
    record.pid = pid;
    record
}

#[test]
fn matching_accepts_any_known_identity() {
    let with_pids = target(vec![1234], None, Prefilter::Host);
    assert!(with_pids.matches(&record(Some(1234))));
    assert!(!with_pids.matches(&record(Some(9999))));

    let mut with_uid = target(Vec::new(), Some(10123), Prefilter::Host);
    let mut record_with_uid = record(None);
    record_with_uid.uid = Some(10123);
    assert!(with_uid.matches(&record_with_uid));
    with_uid.uid = Some(1);
    assert!(!with_uid.matches(&record_with_uid));
}

#[test]
fn a_uid_prefiltered_session_accepts_everything_it_emits() {
    // The device already narrowed the stream, so re-checking a (possibly
    // stale) pid list here would drop the app's logs after a restart.
    let prefiltered = target(vec![1234], Some(10123), Prefilter::Uid);
    assert!(prefiltered.matches(&record(Some(4321))));
    assert!(prefiltered.matches(&record(None)));
}

#[test]
fn an_unresolved_target_matches_nothing() {
    // Showing the whole device because the app is not running would be the
    // worst possible failure mode for "only this app".
    let missing = AppTarget::missing(
        "com.absent",
        AppTargetKind::Package,
        "SER",
        ExecMode::Adb,
        "未安装",
    );
    assert!(!missing.matches(&record(Some(1))));
    assert!(!missing.found);
}

#[test]
fn summary_reads_like_the_ui_chip() {
    let full = target(vec![5063, 5602], Some(10123), Prefilter::Uid);
    assert_eq!(
        full.summary(),
        "com.example.app · UID 10123 · PIDs [5063,5602]"
    );
    let bare = target(Vec::new(), None, Prefilter::Host);
    assert_eq!(bare.summary(), "com.example.app");
}

#[test]
fn the_cache_honours_its_ttl() {
    let mut resolver = AppResolver::new(50);
    let value = target(vec![1], Some(2), Prefilter::Host);
    resolver.store(&value, 1_000);
    assert!(resolver.cached("x", 1_000).is_some());
    assert!(!resolver.is_stale("x", 1_000));
    assert!(resolver.cached("x", 1_070).is_none(), "expired entries must not be served");
    assert!(resolver.is_stale("x", 1_070), "the poller uses this to refresh");
    resolver.invalidate("x");
    assert!(resolver.cached("x", 1_000).is_none());
}

#[test]
fn uid_support_is_remembered_per_device() {
    let mut resolver = AppResolver::default();
    assert_eq!(resolver.uid_support("SER"), None);
    resolver.remember_uid_support("SER", true);
    assert_eq!(resolver.uid_support("SER"), Some(true));
    assert_eq!(resolver.uid_support("OTHER"), None);
}

/// Verbatim `ps -A` from a Xiaomi pad (Android 16), trimmed to a few rows.
///
/// Kept exactly as the device printed it, including the blank `WCHAN` column
/// on most rows, because that blank column is precisely what a tidy fixture
/// hides — and hiding it cost every process on the device.
const REAL_PS: &str = "\
USER           PID  PPID        VSZ    RSS WCHAN            ADDR S NAME                       
root             1     0   10952440   9124                     0 S init
root             2     0          0      0                     0 S [kthreadd]
system        1612     1    5060380  88632                     0 S system_server
u0_a123       5063  1612    5312740 182456                     0 S com.example.app
u0_a123       5602  1612    5312740  45120                     0 S com.example.app:remote
u0_a200       6000  1612    4200000  51200       0             0 S com.other.app
";

#[test]
fn real_device_output_parses_including_the_blank_wchan_column() {
    let rows = parse_ps(REAL_PS);
    assert_eq!(
        rows.len(),
        6,
        "rows with a blank WCHAN must not be dropped: {rows:?}"
    );
    assert_eq!(rows.first().map(|r| r.pid), Some(1));
    assert_eq!(rows.first().map(|r| r.name.as_str()), Some("init"));
    assert_eq!(rows.get(2).map(|r| r.name.as_str()), Some("system_server"));
}

#[test]
fn real_device_output_resolves_app_identities() {
    let rows = parse_ps(REAL_PS);
    assert_eq!(pids_for_package(&rows, "com.example.app"), vec![5063, 5602]);
    assert_eq!(pids_for_uid(&rows, 10123), vec![5063, 5602]);
    assert_eq!(pids_for_package(&rows, "com.other.app"), vec![6000]);

    let apps = running_apps(&rows);
    let packages: Vec<&str> = apps.iter().map(|app| app.package.as_str()).collect();
    assert_eq!(
        packages,
        vec!["com.example.app", "com.other.app"],
        "daemons and kernel threads are not applications"
    );
}

#[test]
fn a_blank_addr_column_is_tolerated() {
    let rows = parse_ps(
        "USER PID PPID VSZ RSS WCHAN ADDR S NAME\n\
         root 1 0 100 200 S init\n",
    );
    assert_eq!(rows.len(), 1);
    assert_eq!(rows.first().map(|r| r.name.as_str()), Some("init"));
}

#[test]
fn ps_without_a_header_yields_nothing_rather_than_guessing() {
    assert!(parse_ps("garbage\nmore garbage\n").is_empty());
    assert!(parse_ps("").is_empty());
}

#[test]
fn running_apps_groups_remotes_and_drops_native_binaries() {
    let rows = parse_ps(PS);
    let apps = running_apps(&rows);

    let packages: Vec<&str> = apps.iter().map(|app| app.package.as_str()).collect();
    assert_eq!(
        packages,
        vec!["com.example.app", "com.other.app", "com.work.profile"],
        "init and system_server are processes, not applications"
    );

    let example = apps.iter().find(|app| app.package == "com.example.app");
    assert_eq!(example.map(|app| app.uid), Some(Some(10123)));
    assert_eq!(
        example.map(|app| app.pids.clone()),
        Some(vec![5063, 5602]),
        "the :remote child must be folded into its app"
    );

    let profile = apps.iter().find(|app| app.package == "com.work.profile");
    assert_eq!(profile.map(|app| app.uid), Some(Some(1_010_045)));
}
