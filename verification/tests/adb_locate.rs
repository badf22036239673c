//! The search for adb.

use droidlog::adb::locate::{
    candidate_paths, discover, executable_names, known_locations, register_resource_dirs, resource_dirs, sdk_roots,
    AdbSource, ResourceDirs, SearchEnv, Tried, ADB_OVERRIDE_ENV,
};
use droidlog::adb::Adb;
use droidlog::error::DroidLogError;

fn env(windows: bool) -> SearchEnv {
    SearchEnv {
        windows,
        override_path: None,
        resource_dirs: Vec::new(),
        android_home: None,
        android_sdk_root: None,
        path_dirs: Vec::new(),
        local_app_data: None,
        user_profile: None,
    }
}

/// The candidates as slash-joined texts, with their origins.
fn trail(env: &SearchEnv) -> Vec<(String, AdbSource)> {
    candidate_paths(env)
        .into_iter()
        .map(|candidate| {
            let mut path = candidate.place.base;
            for name in candidate.place.names {
                path.push('/');
                path.push_str(&name);
            }
            (path, candidate.source)
        })
        .collect()
}

/// Looks at every candidate; `present` says which are there.
fn look(env: &SearchEnv, present: &[&str]) -> Vec<Tried> {
    trail(env)
        .into_iter()
        .map(|(path, source)| {
            let exists = present.contains(&path.as_str());
            Tried { path, source, exists }
        })
        .collect()
}

#[test]
fn platform_executable_names_are_sane() {
    for windows in [false, true] {
        let names = executable_names(windows);
        assert!(!names.is_empty());
        if windows {
            assert!(names.contains(&"adb.exe"));
        } else {
            assert_eq!(names, &["adb"]);
        }
    }
}

#[test]
fn candidates_are_paths_not_directories() {
    for windows in [false, true] {
        let mut env = env(windows);
        env.path_dirs = vec!["/bin".to_owned()];
        for (candidate, _) in trail(&env) {
            assert!(!candidate.is_empty());
            assert!(candidate.ends_with("adb") || candidate.ends_with("adb.exe"));
        }
    }
}

#[test]
fn discover_reports_missing_override() {
    let missing = "/definitely/not/here/adb";
    let mut env = env(false);
    env.override_path = Some(missing.to_owned());
    // Even a binary elsewhere does not stand in for the override.
    let result = discover(&look(&env, &["/usr/bin/adb"]));
    assert!(
        matches!(
            &result,
            Err(DroidLogError::AdbUnavailable(message)) if message.contains("不存在")
        ),
        "expected an AdbUnavailable error mentioning the missing path, got {result:?}"
    );
    assert_eq!(
        result.map_err(|e| e.to_string()),
        Err(format!("adb 不可用：{ADB_OVERRIDE_ENV} 指向的路径不存在：{missing}"))
    );

    assert_eq!(
        discover(&look(&env, &[missing])).ok(),
        Some((missing.to_owned(), AdbSource::EnvOverride))
    );
}

#[test]
fn bundled_resource_dirs_are_registered_and_searched_before_path() {
    let dir = "/opt/app".to_owned();
    let mut registry = ResourceDirs::new();
    assert!(resource_dirs(&registry).is_empty());

    // First registration wins; repeating the same list is accepted, a
    // different list is rejected rather than silently ignored.
    assert!(register_resource_dirs(&mut registry, vec![dir.clone()]).is_ok());
    assert!(register_resource_dirs(&mut registry, vec![dir.clone()]).is_ok());
    let conflict = register_resource_dirs(&mut registry, vec!["/somewhere/else".to_owned()]);
    assert_eq!(
        conflict.map_err(|e| e.to_string()),
        Err("内部错误：adb 资源目录已注册为 [\"/opt/app\"]，无法改为 [\"/somewhere/else\"]".to_owned()),
        "a conflicting re-registration must be reported"
    );
    assert_eq!(resource_dirs(&registry), vec![dir.clone()]);

    let mut env = env(false);
    env.resource_dirs = resource_dirs(&registry);
    env.path_dirs = vec!["/bin".to_owned()];
    let candidates = trail(&env);
    let bundled = candidates.iter().position(|(path, _)| path == "/opt/app/platform-tools/adb");
    let from_path = candidates.iter().position(|(path, _)| path == "/bin/adb");
    assert!(bundled.is_some(), "bundled adb must be a candidate; got {candidates:?}");
    assert!(bundled < from_path, "bundled resources must be searched before PATH");
}

#[test]
fn the_search_trail_is_complete_and_in_order() {
    let mut env = env(false);
    env.override_path = Some("/o/adb".to_owned());
    env.resource_dirs = vec!["/r".to_owned()];
    env.android_home = Some("/sdk".to_owned());
    env.android_sdk_root = Some(String::new());
    env.path_dirs = vec!["/p1".to_owned(), "/p2".to_owned()];
    assert_eq!(sdk_roots(&env), vec!["/sdk"]);
    let expected: Vec<(String, AdbSource)> = [
        ("/o/adb", AdbSource::EnvOverride),
        ("/r/adb", AdbSource::BundledResource),
        ("/r/platform-tools/adb", AdbSource::BundledResource),
        ("/sdk/platform-tools/adb", AdbSource::AndroidSdk),
        ("/p1/adb", AdbSource::PathSearch),
        ("/p2/adb", AdbSource::PathSearch),
        ("/usr/local/bin/adb", AdbSource::KnownLocation),
        ("/usr/bin/adb", AdbSource::KnownLocation),
        ("/opt/homebrew/bin/adb", AdbSource::KnownLocation),
    ]
    .iter()
    .map(|(path, source)| ((*path).to_owned(), *source))
    .collect();
    assert_eq!(trail(&env), expected);
}

#[test]
fn windows_locations_come_from_the_profile() {
    let mut env = env(true);
    assert!(known_locations(&env).is_empty());
    env.local_app_data = Some("L".to_owned());
    env.user_profile = Some("U".to_owned());
    let places = trail(&env);
    assert_eq!(places.len(), 4);
    assert_eq!(places[0].0, "L/Android/Sdk/platform-tools/adb.exe");
    assert_eq!(places[1].0, "L/Android/Sdk/platform-tools/adb");
    assert_eq!(places[2].0, "U/AppData/Local/Android/Sdk/platform-tools/adb.exe");
}

#[test]
fn the_first_existing_candidate_wins_and_none_lists_the_search() {
    let mut env = env(false);
    env.path_dirs = vec!["/p".to_owned()];
    env.override_path = Some(String::new());
    assert_eq!(
        discover(&look(&env, &["/usr/bin/adb", "/p/adb"])).ok(),
        Some(("/p/adb".to_owned(), AdbSource::PathSearch))
    );
    assert_eq!(
        discover(&look(&env, &[])).map_err(|e| e.to_string()),
        Err(
            "adb 不可用：未找到 adb。已搜索：/p/adb; /usr/local/bin/adb; /usr/bin/adb; /opt/homebrew/bin/adb"
                .to_owned()
        )
    );
    let nowhere: Vec<Tried> = Vec::new();
    assert_eq!(
        discover(&nowhere).map_err(|e| e.to_string()),
        Err(
            "adb 不可用：未找到 adb。请安装 Android platform-tools，或设置 DROIDLOG_ADB 指向 adb 可执行文件。"
                .to_owned()
        )
    );
}

#[test]
fn a_found_path_becomes_the_program() {
    let adb = Adb::discover(Ok(("/p/adb".to_owned(), AdbSource::PathSearch))).expect("found");
    assert_eq!(adb.program(), "/p/adb");
    assert_eq!(adb.source(), AdbSource::PathSearch);
    let missing = Adb::discover(Err(DroidLogError::AdbUnavailable("x".to_owned())));
    assert_eq!(missing.map(|_| ()).map_err(|e| e.kind()), Err("adbUnavailable"));
}
