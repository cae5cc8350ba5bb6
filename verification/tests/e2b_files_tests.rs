use xiaoo_shared::backend_labels::{PathKind, PathStat};
use xiaoo_shared::backend_path::OperationError;
use xiaoo_shared::e2b_files::{
    atomic_move_script, export_file_name, remote_roots_script, export_precheck, mkdir_script, script_exit, temp_path_from_output,
    temp_path_from_text,
    write_precheck, WriteMode,
};

fn stat(exists: bool, kind: Option<PathKind>) -> PathStat {
    PathStat { exists, kind, size_bytes: None }
}

#[test]
fn create_refuses_existing_paths() {
    match write_precheck(WriteMode::Create, stat(true, Some(PathKind::File)), "/w/a.txt") {
        Err(OperationError::AlreadyExists { path }) => assert_eq!(path, "/w/a.txt"),
        other => panic!("unexpected {:?}", other),
    }
    assert!(write_precheck(WriteMode::Create, stat(false, None), "/w/a.txt").is_ok());
    assert!(write_precheck(WriteMode::Overwrite, stat(true, Some(PathKind::File)), "/w/a.txt").is_ok());
    assert!(write_precheck(WriteMode::AtomicOverwrite, stat(true, Some(PathKind::File)), "/w/a.txt").is_ok());
}

#[test]
fn move_and_mkdir_scripts_quote_paths() {
    assert_eq!(
        atomic_move_script("/tmp/.xiaoo-atomic-1.tmp", "/w/it's.txt"),
        "parent=$(dirname '/w/it'\\''s.txt') && mkdir -p \"$parent\" && mv -f '/tmp/.xiaoo-atomic-1.tmp' '/w/it'\\''s.txt'"
    );
    assert_eq!(mkdir_script("/w/new dir"), "mkdir -p '/w/new dir'");
    assert_eq!(remote_roots_script("/home/user/workspace", "/tmp/xiaoo"), "mkdir -p '/home/user/workspace' '/tmp/xiaoo'");
}

#[test]
fn exported_files_are_named_by_their_last_segment() {
    assert_eq!(export_file_name("/w/out/report.csv", None), "report.csv");
    assert_eq!(export_file_name("report.csv", None), "report.csv");
    assert_eq!(export_file_name("/w/out/", None), "");
    assert_eq!(export_file_name("/w/out/report.csv", Some("r.csv".to_string())), "r.csv");
}

#[test]
fn only_regular_files_are_exported() {
    match export_precheck(stat(false, None), "/w/x") {
        Err(OperationError::NotFound { path }) => assert_eq!(path, "/w/x"),
        other => panic!("unexpected {:?}", other),
    }
    match export_precheck(stat(true, Some(PathKind::Directory)), "/w/x") {
        Err(OperationError::NotFile { path }) => assert_eq!(path, "/w/x"),
        other => panic!("unexpected {:?}", other),
    }
    assert!(export_precheck(stat(true, Some(PathKind::File)), "/w/x").is_ok());
}

#[test]
fn script_exit_codes_are_read() {
    assert!(script_exit(Some(0), b"").is_ok());
    match script_exit(Some(1), b"mkdir: denied") {
        Err(OperationError::ExecutionFailed { message }) => assert_eq!(message, "mkdir: denied"),
        other => panic!("unexpected {:?}", other),
    }
    assert!(script_exit(None, b"").is_err());
    assert_eq!(temp_path_from_output(Some(0), b" /tmp/tmp-1\n", b"").unwrap(), "/tmp/tmp-1");
    match temp_path_from_output(Some(2), b"", b"\xffbad") {
        Err(OperationError::ExecutionFailed { message }) => assert_eq!(message, "\u{fffd}bad"),
        other => panic!("unexpected {:?}", other),
    }
}

#[test]
fn temp_path_is_the_trimmed_output_and_bad_bytes_are_replaced() {
    assert_eq!(temp_path_from_text("  /tmp/upload.123\n"), "/tmp/upload.123");
    match temp_path_from_output(Some(0), b"/tmp/a\xff\n", b"") {
        Ok(path) => assert_eq!(path, "/tmp/a\u{fffd}"),
        other => panic!("unexpected {:?}", other),
    }
    match script_exit(Some(1), b"bad \xff") {
        Err(OperationError::ExecutionFailed { message }) => assert_eq!(message, "bad \u{fffd}"),
        other => panic!("unexpected {:?}", other),
    }
}
