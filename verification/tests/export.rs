//! Export names, bytes and places.

use droidlog::error::DroidLogError;
use droidlog::export::{
    create_failed, export_bytes, export_dir, export_missing, is_inside, reveal_plan, sanitize_file_name, write_failed,
    ExportFormat, EXPORT_FOLDER, MAX_STEM,
};

/// The components of a path written with slashes.
fn components(path: &str) -> Vec<String> {
    path.split('/').map(str::to_owned).collect()
}

#[test]
fn extensions_map_to_formats() {
    assert_eq!(ExportFormat::Log.extension(), "log");
    assert_eq!(ExportFormat::Csv.extension(), "csv");
    assert_eq!(ExportFormat::Json.extension(), "json");
    assert_eq!(ExportFormat::from_name("csv"), Some(ExportFormat::Csv));
    assert_eq!(ExportFormat::from_name("txt"), None);
    assert!(ExportFormat::Csv.wants_bom());
    assert!(!ExportFormat::Log.wants_bom());
}

#[test]
fn names_are_sanitised() {
    let log = ExportFormat::Log;
    assert_eq!(sanitize_file_name("droidlog-1.log", log), "droidlog-1.log");
    // The extension is the format's, whatever was suggested.
    assert_eq!(sanitize_file_name("report.csv", log), "report.log");
    // Path traversal cannot survive: only the last component is kept.
    assert_eq!(sanitize_file_name("../../evil.log", log), "evil.log");
    assert_eq!(sanitize_file_name("..\\..\\evil.log", log), "evil.log");
    // Unsupported characters are dropped, not escaped.
    assert_eq!(sanitize_file_name("日志 导出.log", log), "droidlog.log");
    assert_eq!(sanitize_file_name("a b:c*?.log", log), "abc.log");
    // A leading dot would hide the file.
    assert_eq!(sanitize_file_name(".hidden.log", log), "hidden.log");
    // Empty or punctuation-only names fall back.
    assert_eq!(sanitize_file_name("", log), "droidlog.log");
    assert_eq!(sanitize_file_name("...", log), "droidlog.log");
}

#[test]
fn long_names_are_capped() {
    let long = "x".repeat(300);
    let name = sanitize_file_name(&format!("{long}.log"), ExportFormat::Log);
    assert!(name.len() <= MAX_STEM + 4, "{}", name.len());
    assert!(name.ends_with(".log"));
}

#[test]
fn a_mismatched_name_is_refused() {
    let err = export_bytes("report.csv", "a", ExportFormat::Log);
    assert!(err.is_err());
    assert_eq!(
        err.map_err(|e| e.to_string()),
        Err("参数无效：导出文件名与格式不符：report.csv 不是 .log".to_owned())
    );
}

#[test]
fn csv_gets_a_bom_and_log_does_not() {
    let csv = export_bytes("a.csv", "seq,msg\n1,hi\n", ExportFormat::Csv).expect("csv bytes");
    assert!(csv.starts_with(&[0xEF, 0xBB, 0xBF]), "csv must start with a BOM");
    assert_eq!(&csv[3..], b"seq,msg\n1,hi\n");

    let log = export_bytes("b.log", "one\ntwo\n", ExportFormat::Log).expect("log bytes");
    assert!(!log.starts_with(&[0xEF, 0xBB, 0xBF]), "log must not have a BOM");
    assert_eq!(log, b"one\ntwo\n");
}

#[test]
fn export_dir_nests_under_downloads() {
    let dir = export_dir(Some(components("C:/Users/x/Downloads")));
    assert_eq!(dir.last().map(String::as_str), Some(EXPORT_FOLDER));
    assert!(dir.contains(&"Downloads".to_owned()));
    // No download directory known: still a usable relative folder.
    assert_eq!(export_dir(None), vec![EXPORT_FOLDER.to_owned()]);
}

#[test]
fn containment_is_checked_by_prefix() {
    let dir = components("C:/Users/x/Downloads/Droidlog");
    assert!(is_inside(&dir, &components("C:/Users/x/Downloads/Droidlog/a.log")));
    assert!(is_inside(&dir, &components("C:/Users/x/Downloads/Droidlog/nested/a.log")));
    assert!(!is_inside(&dir, &components("C:/Users/x/Downloads/other/a.log")));
    // A sibling whose name merely starts the same must not pass.
    assert!(!is_inside(&dir, &components("C:/Users/x/Downloads/Droidlog2/a.log")));
    assert!(!is_inside(&dir, &components("C:/Users/x")));
}

#[test]
fn revealing_a_missing_file_is_an_error() {
    let error = export_missing("/tmp/none.log", "gone");
    assert_eq!(error.kind(), "invalidInput");
    assert_eq!(error.to_string(), "参数无效：导出文件不存在：/tmp/none.log（gone）");
}

#[test]
fn only_files_of_the_export_directory_are_revealed() {
    let dir = components("/home/x/Droidlog");
    let plan = reveal_plan(&dir, &components("/home/x/Droidlog/a b.log"), "/home/x/Droidlog/a b.log")
        .expect("a file inside is revealed");
    assert_eq!(plan.program, "explorer.exe");
    assert_eq!(plan.args, vec!["/select,/home/x/Droidlog/a b.log"]);

    let refused = reveal_plan(&dir, &components("/etc/passwd"), "/etc/passwd");
    assert!(matches!(
        refused,
        Err(DroidLogError::InvalidInput(text)) if text == "只能打开导出目录内的文件：/etc/passwd"
    ));
}

#[test]
fn failures_of_writing_name_the_place() {
    assert_eq!(
        create_failed("/x", "denied").to_string(),
        "参数无效：无法创建导出目录 /x：denied"
    );
    assert_eq!(write_failed("/x/a.log", "full").to_string(), "参数无效：无法写入 /x/a.log：full");
}

#[test]
fn sanitising_twice_changes_nothing() {
    for requested in ["../../evil.log", "a.b.c.json", "___", "x/y\\z w.txt", "..a..", "日志"] {
        for format in [ExportFormat::Log, ExportFormat::Csv, ExportFormat::Json] {
            let once = sanitize_file_name(requested, format);
            assert_eq!(sanitize_file_name(&once, format), once);
            assert!(export_bytes(&once, "", format).is_ok(), "{once}");
        }
    }
    assert_eq!(sanitize_file_name("a.b.c.json", ExportFormat::Json), "a.b.c.json");
}
