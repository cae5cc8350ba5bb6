use xiaoo_shared::backend_path::OperationError;
use xiaoo_shared::e2b_backend::{
    delete_sandbox_succeeded, envd_host, http_error, join_url, shell_quote, E2bBackendState, E2bLifecycle,
};
use xiaoo_shared::e2b_exec::{
    connect_timeout_ms, exec_timed_out, plan_exec_process, shell_script_process, start_refused_error, timeout_arg,
};

fn state() -> E2bBackendState {
    E2bBackendState {
        backend_id: "bkd_1".to_string(),
        api_base: "https://api.e2b.app/".to_string(),
        api_key: "key".to_string(),
        sandbox_id: "sbx".to_string(),
        sandbox_domain: "e2b.app".to_string(),
        envd_access_token: Some("tok".to_string()),
        envd_port: 49983,
        envd_scheme: "https".to_string(),
        workspace_root: "/home/user/workspace".to_string(),
        home_dir: Some("/home/user".to_string()),
        temp_root: "/tmp".to_string(),
        default_shell: Some("/bin/sh".to_string()),
        username: Some("user".to_string()),
        envd_file_upload_multipart: false,
        lifecycle: E2bLifecycle::Active,
    }
}

#[test]
fn urls_hosts_and_quoting() {
    assert_eq!(join_url("https://api.e2b.app//", "//sandboxes"), "https://api.e2b.app/sandboxes");
    assert_eq!(envd_host(49983, "sbx", "e2b.app"), "49983-sbx.e2b.app");
    assert_eq!(shell_quote(""), "''");
    assert_eq!(shell_quote("it's"), "'it'\\''s'");
    let s = state();
    assert_eq!(s.envd_url("/files"), "https://49983-sbx.e2b.app/files");
    assert_eq!(s.platform_url("/sandboxes/sbx"), "https://api.e2b.app/sandboxes/sbx");
}

#[test]
fn paths_resolve_against_home_and_base() {
    let s = state();
    assert_eq!(s.resolve_backend_path("~", "/x").ok(), Some("/home/user".to_string()));
    assert_eq!(s.resolve_backend_path("~/notes/../a.txt", "/x").ok(), Some("/home/user/a.txt".to_string()));
    assert_eq!(s.resolve_backend_path("rel/b", "/base/dir").ok(), Some("/base/dir/rel/b".to_string()));
    assert_eq!(s.resolve_backend_path("/abs/./c", "/base").ok(), Some("/abs/c".to_string()));
    let mut no_home = state();
    no_home.home_dir = None;
    match no_home.resolve_backend_path("~/x", "/base") {
        Err(OperationError::Unsupported { message }) => assert_eq!(message, "home_dir is not configured"),
        _ => panic!("expected unsupported"),
    }
}

#[test]
fn lifecycle_shutdown_transitions() {
    let mut s = state();
    assert!(s.ensure_active().is_ok());
    assert!(s.begin_shutdown());
    assert!(!s.begin_shutdown());
    match s.ensure_active() {
        Err(OperationError::Transport { message }) => assert_eq!(message, "e2b backend bkd_1 is shutting down"),
        _ => panic!("expected shutting down"),
    }
    assert!(s.conclude_shutdown(Err(OperationError::Transport { message: "x".to_string() })).is_err());
    assert_eq!(s.lifecycle, E2bLifecycle::Active);
    assert!(s.begin_shutdown());
    assert!(s.conclude_shutdown(Ok(())).is_ok());
    assert_eq!(s.lifecycle, E2bLifecycle::Closed);
    match s.ensure_active() {
        Err(OperationError::Transport { message }) => assert_eq!(message, "e2b backend bkd_1 is already closed"),
        _ => panic!("expected closed"),
    }
}

#[test]
fn envd_headers_carry_token_and_basic_auth() {
    let s = state();
    let headers = s.envd_headers();
    assert_eq!(headers.len(), 2);
    assert_eq!(headers[0], ("X-Access-Token".to_string(), "tok".to_string()));
    assert_eq!(headers[1], ("Authorization".to_string(), "Basic dXNlcjo=".to_string()));
    let mut blank = state();
    blank.envd_access_token = Some("  ".to_string());
    blank.username = Some(String::new());
    assert!(blank.envd_headers().is_empty());
}

#[test]
fn reply_statuses_map_to_errors() {
    assert!(delete_sandbox_succeeded(204));
    assert!(delete_sandbox_succeeded(404));
    assert!(!delete_sandbox_succeeded(500));
    assert!(matches!(http_error("ctx", 404, "404 Not Found", "gone".to_string()), OperationError::NotFound { path } if path == "gone"));
    assert!(matches!(http_error("ctx", 403, "403 Forbidden", "no".to_string()), OperationError::PermissionDenied { .. }));
    match http_error("read file", 500, "500 Internal Server Error", "boom".to_string()) {
        OperationError::Transport { message } => assert_eq!(message, "read file failed with HTTP 500 Internal Server Error: boom"),
        _ => panic!("expected transport"),
    }
    assert!(matches!(start_refused_error(401, "m".to_string(), "f"), OperationError::PermissionDenied { .. }));
    assert!(matches!(start_refused_error(500, "m".to_string(), "f"), OperationError::Transport { message } if message == "f"));
}

#[test]
fn exec_requests_become_processes() {
    assert_eq!(timeout_arg(5000), "5s");
    assert_eq!(timeout_arg(1500), "1.500s");
    assert_eq!(timeout_arg(2007), "2.007s");
    assert_eq!(connect_timeout_ms(Some(1000)), Some(11_000));
    assert_eq!(connect_timeout_ms(Some(u64::MAX)), Some(u64::MAX));
    assert_eq!(connect_timeout_ms(None), None);

    let (cmd, args) = plan_exec_process("ls -l".to_string(), vec![], None, Some("/bin/sh".to_string()), Some(1500)).ok().unwrap();
    assert_eq!(cmd, "timeout");
    assert_eq!(args, vec!["--signal=TERM", "1.500s", "/bin/sh", "-c", "ls -l"]);
    let (cmd, args) = plan_exec_process("grep".to_string(), vec!["-n".to_string(), "x".to_string()], None, None, Some(2000))
        .ok()
        .unwrap();
    assert_eq!(cmd, "timeout");
    assert_eq!(args, vec!["--signal=TERM", "2s", "grep", "-n", "x"]);
    let (cmd, args) = plan_exec_process("grep".to_string(), vec!["a".to_string()], None, None, None).ok().unwrap();
    assert_eq!(cmd, "grep");
    assert_eq!(args, vec!["a"]);
    match plan_exec_process("  ".to_string(), vec![], None, None, None) {
        Err(OperationError::ExecutionFailed { message }) => assert_eq!(message, "command cannot be empty"),
        _ => panic!("expected failure"),
    }
    match plan_exec_process("echo".to_string(), vec!["a".to_string()], Some("/bin/bash".to_string()), None, None) {
        Err(OperationError::Unsupported { message }) => assert_eq!(message, "shell execution does not support args"),
        _ => panic!("expected unsupported"),
    }
    assert!(exec_timed_out(Some(10), Some(124), false));
    assert!(!exec_timed_out(None, Some(124), false));
    assert!(exec_timed_out(None, Some(0), true));
    let (shell, args) = shell_script_process(&None, "mkdir -p /w");
    assert_eq!(shell, "/bin/sh");
    assert_eq!(args, vec!["-c", "mkdir -p /w"]);
}

#[test]
fn envd_headers_use_the_given_credentials_text() {
    let s = state();
    let headers = s.envd_headers_with("Zm9vOg==");
    assert_eq!(headers[1], ("Authorization".to_string(), "Basic Zm9vOg==".to_string()));
    assert_eq!(s.envd_headers(), s.envd_headers_with("dXNlcjo="));
}
