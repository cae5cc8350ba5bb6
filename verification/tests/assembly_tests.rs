use xiaoo_shared::backend_base::{
    expires_at_ms_from_timeout_at, requested_backend_id, requested_backend_id_with, resolve_session_backend_kind,
    BackendBuildError, BackendError,
};
use xiaoo_shared::llm_assembly::{
    api_key_from_env, api_key_source, effective_context_window, ApiKeySource, EnvValue, LlmAssemblyError,
    SessionRuntimeResolveError, SessionStoreError,
};

#[test]
fn api_key_source_prefers_direct_key() {
    match api_key_source(Some("sk-1"), Some("MY_ENV"), Some("DEFAULT_ENV")) {
        ApiKeySource::Direct(k) => assert_eq!(k, "sk-1"),
        other => panic!("unexpected {:?}", other),
    }
}

#[test]
fn api_key_source_configured_env_is_required() {
    match api_key_source(None, Some("MY_ENV"), Some("DEFAULT_ENV")) {
        ApiKeySource::Env { name, required } => {
            assert_eq!(name, "MY_ENV");
            assert!(required);
        }
        other => panic!("unexpected {:?}", other),
    }
}

#[test]
fn api_key_source_default_env_is_optional() {
    match api_key_source(None, None, Some("DEFAULT_ENV")) {
        ApiKeySource::Env { name, required } => {
            assert_eq!(name, "DEFAULT_ENV");
            assert!(!required);
        }
        other => panic!("unexpected {:?}", other),
    }
    assert!(matches!(api_key_source(None, None, None), ApiKeySource::NoKey));
}

#[test]
fn api_key_from_env_prefers_decrypted_key() {
    let r = api_key_from_env("K", true, Some("stored".to_string()), EnvValue::Present("from-env".to_string()));
    assert_eq!(r.unwrap(), Some("stored".to_string()));
}

#[test]
fn api_key_from_env_blank_decrypted_falls_back_to_env() {
    let r = api_key_from_env("K", true, Some("   ".to_string()), EnvValue::Present("from-env".to_string()));
    assert_eq!(r.unwrap(), Some("from-env".to_string()));
}

#[test]
fn api_key_from_env_missing_required_is_error() {
    match api_key_from_env("OPENAI_KEY", true, None, EnvValue::NotPresent) {
        Err(LlmAssemblyError::MissingApiKeyEnv(n)) => assert_eq!(n, "OPENAI_KEY"),
        other => panic!("unexpected {:?}", other),
    }
    match api_key_from_env("OPENAI_KEY", true, None, EnvValue::Present("  ".to_string())) {
        Err(e) => assert_eq!(e.message(), "missing required API key environment variable: OPENAI_KEY"),
        other => panic!("unexpected {:?}", other),
    }
}

#[test]
fn api_key_from_env_optional_missing_is_none() {
    assert_eq!(api_key_from_env("K", false, None, EnvValue::NotPresent).unwrap(), None);
    assert_eq!(api_key_from_env("K", false, None, EnvValue::Present("".to_string())).unwrap(), None);
}

#[test]
fn api_key_from_env_not_unicode_is_error() {
    match api_key_from_env("K", false, None, EnvValue::NotUnicode) {
        Err(e) => assert_eq!(e.message(), "API key environment variable is not valid unicode: K"),
        other => panic!("unexpected {:?}", other),
    }
}

#[test]
fn llm_assembly_error_messages() {
    assert_eq!(LlmAssemblyError::Resolve("x".to_string()).message(), "failed to resolve llm provider config: x");
    assert_eq!(LlmAssemblyError::Create("y".to_string()).message(), "failed to create llm provider: y");
}

#[test]
fn context_window_prefers_configured_then_probed() {
    assert_eq!(effective_context_window(Some(8000), Some(128000), 4096), 8000);
    assert_eq!(effective_context_window(Some(0), Some(128000), 4096), 128000);
    assert_eq!(effective_context_window(None, None, 4096), 4096);
    assert_eq!(effective_context_window(None, Some(0), 0), 1);
    assert_eq!(effective_context_window(None, Some(10_000_000_000), 4096), u32::MAX);
}

#[test]
fn runtime_and_store_error_messages() {
    let e = SessionRuntimeResolveError::BootstrapTooLarge { message: "too big".to_string() };
    assert_eq!(e.message(), "runtime bootstrap payload exceeds capacity: too big");
    let e = SessionRuntimeResolveError::ResolveFailed { message: "m".to_string() };
    assert_eq!(e.message(), "runtime resolution failed: m");
    let e = SessionStoreError::NotFound { session_id: "s1".to_string() };
    assert_eq!(e.message(), "session not found: s1");
}

#[test]
fn session_backend_kind_resolution() {
    assert_eq!(resolve_session_backend_kind(None).unwrap(), "local");
    assert_eq!(resolve_session_backend_kind(Some("e2b")).unwrap(), "e2b");
    assert_eq!(resolve_session_backend_kind(Some("local")).unwrap(), "local");
    match resolve_session_backend_kind(Some("docker")) {
        Err(BackendBuildError::UnsupportedBackend { kind }) => assert_eq!(kind, "docker"),
        other => panic!("unexpected {:?}", other),
    }
}

#[test]
fn requested_backend_id_rules() {
    assert_eq!(requested_backend_id_with(Some("bkd_x".to_string()), "zz").unwrap(), "bkd_x");
    assert_eq!(requested_backend_id_with(None, "abc").unwrap(), "bkd_abc");
    match requested_backend_id_with(Some("  ".to_string()), "abc") {
        Err(BackendError::InvalidRequest { message }) => assert_eq!(message, "backend_id cannot be empty"),
        other => panic!("unexpected {:?}", other),
    }
    let fresh = requested_backend_id(None).unwrap();
    assert!(fresh.starts_with("bkd_"));
    assert_eq!(fresh.len(), 4 + 32);
    let other = requested_backend_id(None).unwrap();
    assert_ne!(fresh, other);
}

#[test]
fn expiry_from_timeout() {
    assert_eq!(expires_at_ms_from_timeout_at(60, 1_000), 61_000);
    assert_eq!(expires_at_ms_from_timeout_at(0, 5), 5);
    assert_eq!(expires_at_ms_from_timeout_at(u64::MAX, 5), u64::MAX);
    assert_eq!(expires_at_ms_from_timeout_at(10, u64::MAX - 1), u64::MAX);
}

#[test]
fn mod_non_local_backend_is_unsupported() {
    let config = resolve_session_backend_kind(Some("docker"));
    assert!(matches!(
        config,
        Err(BackendBuildError::UnsupportedBackend { kind }) if kind == "docker"
    ));
}
