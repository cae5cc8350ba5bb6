use xiaoo_shared::backend_base::BackendError;
use xiaoo_shared::backend_metadata::{forked_provider_options, metadata_for_instance, redacted_provider_options};
use xiaoo_shared::e2b_error::{E2bFailure, E2bFailureKind};
use xiaoo_shared::e2b_provider::{
    api_key_env_name, choose_api_key, encode_path_segment, platform_metadata, provider_http_failure, required_id,
    resolve_e2b_settings, sandbox_timeout_secs, snapshot_delete_outcome, workspace_init_after_failure,
    workspace_init_backoff, workspace_init_backoff_with, E2bProviderOptions, WorkspaceInitStep,
    WORKSPACE_INIT_BASE_DELAY_MS, WORKSPACE_INIT_MAX_ATTEMPTS, WORKSPACE_INIT_MAX_DELAY_MS,
};
use xiaoo_shared::e2b_create_body::sandbox_create_body;
use xiaoo_shared::json_value::JsonValue;
use xiaoo_shared::strmap::StrMap;

fn empty_options() -> E2bProviderOptions {
    E2bProviderOptions {
        api_key: None,
        api_key_env: None,
        api_base: None,
        template_id: None,
        timeout_secs: None,
        secure: None,
        allow_internet_access: None,
        auto_pause: None,
        auto_resume: None,
        envd_port: None,
        envd_scheme: None,
        workspace_root: None,
        home_dir: None,
        temp_root: None,
        default_shell: None,
        username: None,
        metadata: None,
        env_vars: None,
        network: None,
        mcp: None,
        volume_mounts: None,
    }
}

fn object(members: Vec<(&str, JsonValue)>) -> JsonValue {
    JsonValue::Object(members.into_iter().map(|(k, v)| (k.to_string(), v)).collect())
}

fn member<'a>(value: &'a JsonValue, key: &str) -> Option<&'a JsonValue> {
    value.get(key)
}

#[test]
fn encodes_template_id_as_single_path_segment() {
    assert_eq!(encode_path_segment("team/fork-test:default"), "team%2Ffork-test%3Adefault");
}

#[test]
fn workspace_backoff_is_bounded_and_jittered() {
    for attempt in 1..=WORKSPACE_INIT_MAX_ATTEMPTS {
        let delay_ms = workspace_init_backoff(attempt);
        let exponent = u32::try_from(attempt.saturating_sub(1)).unwrap_or(u32::MAX);
        let base = WORKSPACE_INIT_BASE_DELAY_MS
            .saturating_mul(2u64.saturating_pow(exponent))
            .min(WORKSPACE_INIT_MAX_DELAY_MS);
        assert!(delay_ms >= base - base / 5);
        assert!(delay_ms <= base + base / 5);
    }
}

#[test]
fn backoff_formula_exact_values() {
    assert_eq!(workspace_init_backoff_with(1, 0), 160);
    assert_eq!(workspace_init_backoff_with(1, 80), 240);
    assert_eq!(workspace_init_backoff_with(3, 5), 645);
    assert_eq!(workspace_init_backoff_with(6, 0), 1600);
    assert!(matches!(workspace_init_after_failure(6, true), WorkspaceInitStep::GiveUp));
    assert!(matches!(workspace_init_after_failure(2, false), WorkspaceInitStep::GiveUp));
    assert!(matches!(workspace_init_after_failure(2, true), WorkspaceInitStep::Retry(d) if (320..=480).contains(&d)));
}

#[test]
fn redacts_direct_api_key_from_metadata() {
    let options = object(vec![
        ("api_key", JsonValue::Str("secret".to_string())),
        ("template_id", JsonValue::Str("base".to_string())),
        ("envVars", object(vec![("TOKEN", JsonValue::Str("secret".to_string()))])),
    ]);

    let redacted = redacted_provider_options(options, true);

    assert!(member(&redacted, "api_key").is_none());
    assert!(member(&redacted, "envVars").is_none());
    assert!(matches!(member(&redacted, "api_key_configured"), Some(JsonValue::Bool(true))));
    assert!(matches!(member(&redacted, "template_id"), Some(JsonValue::Str(t)) if t == "base"));
}

#[test]
fn default_template_is_base() {
    let settings = resolve_e2b_settings(&empty_options()).ok().expect("settings");
    assert_eq!(settings.template_id, "base");
}

#[test]
fn settings_defaults_and_normalised_paths() {
    let mut options = empty_options();
    options.workspace_root = Some("/work/./a/../b/".to_string());
    options.api_base = Some("   ".to_string());
    options.username = Some(" ".to_string());
    let s = resolve_e2b_settings(&options).ok().expect("settings");
    assert_eq!(s.workspace_root, "/work/b");
    assert_eq!(s.api_base, "https://api.e2b.app");
    assert_eq!(s.home_dir.as_deref(), Some("/home/user"));
    assert_eq!(s.temp_root, "/tmp");
    assert_eq!(s.envd_port, 49983);
    assert_eq!(s.envd_scheme, "https");
    assert_eq!(s.default_shell.as_deref(), Some("/bin/sh"));
    assert_eq!(s.username, None);

    let mut bad = empty_options();
    bad.temp_root = Some("relative".to_string());
    match resolve_e2b_settings(&bad) {
        Err(BackendError::InvalidRequest { message }) => assert_eq!(message, "path must be absolute: relative"),
        _ => panic!("expected invalid request"),
    }
}

#[test]
fn api_key_comes_from_options_then_environment() {
    let mut options = empty_options();
    assert_eq!(api_key_env_name(&options), "E2B_API_KEY");
    match choose_api_key(&options, None) {
        Err(BackendError::InvalidRequest { message }) => {
            assert_eq!(message, "e2b backend requires api_key or non-empty env var E2B_API_KEY")
        }
        _ => panic!("expected missing key"),
    }
    assert_eq!(choose_api_key(&options, Some("from-env".to_string())).ok(), Some("from-env".to_string()));
    options.api_key = Some("direct".to_string());
    assert_eq!(choose_api_key(&options, Some("from-env".to_string())).ok(), Some("direct".to_string()));
}

#[test]
fn sandbox_timeout_and_metadata_merge() {
    assert_eq!(sandbox_timeout_secs(Some(7), Some(90_000)), 7);
    assert_eq!(sandbox_timeout_secs(None, Some(90_500)), 90);
    assert_eq!(sandbox_timeout_secs(None, None), 3600);

    let mut configured = StrMap::new();
    configured.insert("team".to_string(), "a".to_string());
    configured.insert("xiaoo_session_id".to_string(), "spoofed".to_string());
    let mut requested = StrMap::new();
    requested.insert("team".to_string(), "b".to_string());
    let merged = platform_metadata(Some(&configured), &requested, "bkd_1", "s1", "/host");
    assert_eq!(merged.get("team").map(|s| s.as_str()), Some("b"));
    assert_eq!(merged.get("xiaoo_session_id").map(|s| s.as_str()), Some("s1"));
    assert_eq!(merged.get("xiaoo_backend_id").map(|s| s.as_str()), Some("bkd_1"));
    assert_eq!(merged.get("xiaoo_host_workspace").map(|s| s.as_str()), Some("/host"));
}

#[test]
fn replies_and_ids_of_provider_requests() {
    assert_eq!(snapshot_delete_outcome(204), Some(true));
    assert_eq!(snapshot_delete_outcome(404), Some(false));
    assert_eq!(snapshot_delete_outcome(500), None);
    assert_eq!(required_id("  snap-1 ", "snapshot").ok(), Some("snap-1".to_string()));
    match required_id("   ", "sandbox") {
        Err(BackendError::InvalidRequest { message }) => assert_eq!(message, "e2b sandbox id cannot be empty"),
        _ => panic!("expected invalid request"),
    }
    match provider_http_failure("delete snapshot template", "500 Internal Server Error", "oops") {
        BackendError::BuildFailed { message } => {
            assert_eq!(message, "e2b delete snapshot template failed with HTTP 500 Internal Server Error: oops")
        }
        _ => panic!("expected build failure"),
    }
}

#[test]
fn retryable_statuses_are_classified() {
    assert!(E2bFailure::from_status("create", 429, "Too Many Requests", "").retryable);
    assert!(E2bFailure::from_status("create", 502, "Bad Gateway", "").retryable);
    assert!(!E2bFailure::from_status("create", 401, "Unauthorized", "").retryable);
}

#[test]
fn status_failure_message_and_transport_kinds() {
    let f = E2bFailure::from_status("e2b create sandbox", 503, "Service Unavailable", "busy");
    assert_eq!(f.kind, E2bFailureKind::HttpStatus);
    assert_eq!(f.message, "e2b create sandbox failed with HTTP 503 Service Unavailable: busy");
    let dns = E2bFailure::from_transport("x".to_string(), "Failed to lookup address".to_string(), false, false, false);
    assert_eq!(dns.kind, E2bFailureKind::Dns);
    let timeout = E2bFailure::from_transport("x".to_string(), "dns".to_string(), true, false, false);
    assert_eq!(timeout.kind, E2bFailureKind::Timeout);
}

#[test]
fn fork_options_override_members_and_pin_the_template() {
    let parent = object(vec![
        ("template_id", JsonValue::Str("base".to_string())),
        ("timeout_secs", JsonValue::Number("10".to_string())),
    ]);
    let overrides = object(vec![("timeout_secs", JsonValue::Number("20".to_string()))]);
    let forked = forked_provider_options(parent, Some(overrides), "snap-9");
    assert!(matches!(member(&forked, "template_id"), Some(JsonValue::Str(t)) if t == "snap-9"));
    assert!(matches!(member(&forked, "timeout_secs"), Some(JsonValue::Number(n)) if n == "20"));
}

#[test]
fn instance_metadata_keeps_user_metadata_and_hides_secrets() {
    let meta = metadata_for_instance(
        JsonValue::Str("note".to_string()),
        object(vec![("api_key", JsonValue::Str("k".to_string()))]),
        "sbx",
        "tpl",
        true,
        true,
    );
    assert!(matches!(member(&meta, "user_metadata"), Some(JsonValue::Str(n)) if n == "note"));
    assert!(matches!(member(&meta, "provider"), Some(JsonValue::Str(p)) if p == "e2b"));
    assert!(matches!(member(&meta, "sandbox_id"), Some(JsonValue::Str(p)) if p == "sbx"));
    assert!(matches!(member(&meta, "traffic_access_token_present"), Some(JsonValue::Bool(true))));
    let options = member(&meta, "provider_options").expect("options");
    assert!(member(options, "api_key").is_none());
}

#[test]
fn sandbox_create_body_lists_configured_members() {
    let mut options = empty_options();
    options.allow_internet_access = Some(false);
    options.auto_resume = Some(true);
    options.env_vars = Some(StrMap::new());
    options.network = Some(object(vec![("allowOut", JsonValue::Array(vec![]))]));
    let mut metadata = StrMap::new();
    metadata.insert("xiaoo_backend_id".to_string(), "bkd_1".to_string());

    let body = sandbox_create_body("base", 3600, options, &metadata);
    let keys: Vec<String> = match &body {
        JsonValue::Object(members) => members.iter().map(|(k, _)| k.clone()).collect(),
        _ => panic!("body is not an object"),
    };
    assert_eq!(
        keys,
        vec!["templateID", "timeout", "secure", "allow_internet_access", "autoResume", "metadata", "network"]
    );
    assert!(matches!(member(&body, "templateID"), Some(JsonValue::Str(s)) if s == "base"));
    assert!(matches!(member(&body, "timeout"), Some(JsonValue::Number(n)) if n == "3600"));
    assert!(matches!(member(&body, "secure"), Some(JsonValue::Bool(true))));
    assert!(matches!(member(&body, "allow_internet_access"), Some(JsonValue::Bool(false))));
    let resume = member(&body, "autoResume").unwrap();
    assert!(matches!(member(resume, "enabled"), Some(JsonValue::Bool(true))));
    let meta = member(&body, "metadata").unwrap();
    assert!(matches!(member(meta, "xiaoo_backend_id"), Some(JsonValue::Str(s)) if s == "bkd_1"));
    assert!(member(&body, "envVars").is_none());
    assert!(member(&body, "network").is_some());
}

#[test]
fn sandbox_create_body_sends_secure_false_and_env_vars() {
    let mut options = empty_options();
    options.secure = Some(false);
    let mut env = StrMap::new();
    env.insert("A".to_string(), "1".to_string());
    options.env_vars = Some(env);
    let body = sandbox_create_body("t", 0, options, &StrMap::new());
    assert!(matches!(member(&body, "secure"), Some(JsonValue::Bool(false))));
    assert!(member(&body, "metadata").is_none());
    let env = member(&body, "envVars").unwrap();
    assert!(matches!(member(env, "A"), Some(JsonValue::Str(s)) if s == "1"));
    assert!(matches!(member(&body, "timeout"), Some(JsonValue::Number(n)) if n == "0"));
}

#[test]
fn redaction_drops_every_secret_member_and_keeps_the_rest_in_order() {
    let options = object(vec![
        ("api_key", JsonValue::Str("secret".to_string())),
        ("template_id", JsonValue::Str("base".to_string())),
        ("env_vars", object(vec![("TOKEN", JsonValue::Str("secret".to_string()))])),
        ("api_key", JsonValue::Str("secret".to_string())),
        ("timeout", JsonValue::Number("60".to_string())),
    ]);
    let redacted = redacted_provider_options(options, false);
    assert!(!format!("{:?}", redacted).contains("secret"));
    match &redacted {
        JsonValue::Object(members) => {
            let keys: Vec<&str> = members.iter().map(|(k, _)| k.as_str()).collect();
            assert_eq!(keys, vec!["template_id", "timeout"]);
        }
        other => panic!("unexpected {:?}", other),
    }
}
