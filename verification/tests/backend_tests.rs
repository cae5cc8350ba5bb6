use xiaoo_shared::backend_base::{BackendBuildError, BackendError, BackendManagerLimits};
use xiaoo_shared::backend_index::resolve_checkpoint_backend_id;
use xiaoo_shared::backend_labels::{
    backend_endpoint_kind, backend_endpoint_str, backend_state_label, file_type_to_kind, path_stat_from_entry,
    temp_path_script, BackendEndpoint, BackendLifecycleState, EntryInfo, PathKind, SizeValue,
};
use xiaoo_shared::backend_metadata::checkout_metadata;
use xiaoo_shared::backend_path::{normalize_backend_path, OperationError};
use xiaoo_shared::conch_config::{validate_conch_config, validate_conch_config_with, ConchBackendOptions, ConchControlTransport};
use xiaoo_shared::dirty_tracker::BackendDirtyTracker;
use xiaoo_shared::e2b_bootstrap::{
    skill_archive_dir, skill_leaf, skill_manifest_file, skill_remote_dir, ArchiveLimits, E2bBootstrapBuildError,
    E2B_BOOTSTRAP_MAX_ENTRIES, E2B_BOOTSTRAP_MAX_FILE_BYTES, E2B_BOOTSTRAP_MAX_TOTAL_BYTES,
};
use xiaoo_shared::json_value::{metadata_matches_filter, JsonValue};
use xiaoo_shared::strmap::StrMap;

#[test]
fn enforces_all_capacity_counters() {
    let mut limits = ArchiveLimits { entries: E2B_BOOTSTRAP_MAX_ENTRIES, total_bytes: 0 };
    assert!(matches!(limits.add_entry("overflow"), Err(E2bBootstrapBuildError::CapacityExceeded { .. })));

    let mut limits = ArchiveLimits::default();
    assert!(matches!(
        limits.add_file("large", E2B_BOOTSTRAP_MAX_FILE_BYTES + 1),
        Err(E2bBootstrapBuildError::CapacityExceeded { .. })
    ));

    let mut limits = ArchiveLimits { entries: 0, total_bytes: E2B_BOOTSTRAP_MAX_TOTAL_BYTES };
    assert!(matches!(limits.add_file("total", 1), Err(E2bBootstrapBuildError::CapacityExceeded { .. })));
}

#[test]
fn capacity_messages_and_counts() {
    let mut limits = ArchiveLimits { entries: E2B_BOOTSTRAP_MAX_ENTRIES, total_bytes: 0 };
    match limits.add_entry("/w/x") {
        Err(e) => assert_eq!(e.message(), "bootstrap capacity exceeded: more than 100000 entries (at /w/x)"),
        Ok(()) => panic!("expected capacity error"),
    }
    let mut limits = ArchiveLimits::default();
    assert!(limits.add_file("a", 10).is_ok());
    assert!(limits.add_file("b", 5).is_ok());
    assert_eq!(limits.entries, 2);
    assert_eq!(limits.total_bytes, 15);
    match limits.add_file("big", E2B_BOOTSTRAP_MAX_FILE_BYTES + 1) {
        Err(E2bBootstrapBuildError::CapacityExceeded { message }) => {
            assert_eq!(message, "file big is 134217729 bytes; per-file limit is 134217728")
        }
        _ => panic!("expected per-file error"),
    }
}

#[test]
fn skill_places_in_archive_and_sandbox() {
    assert_eq!(skill_leaf(7), "skill-00007");
    assert_eq!(skill_leaf(123456), "skill-123456");
    assert_eq!(skill_archive_dir(1, "skill-00000"), "skills/1/skill-00000");
    assert_eq!(skill_remote_dir(0, "skill-00002"), "/home/user/.xiaoo/skills/0/skill-00002");
    assert_eq!(skill_manifest_file(true), "SKILL.toml");
    assert_eq!(skill_manifest_file(false), "SKILL.md");
}

#[test]
fn backend_paths_are_normalised() {
    assert_eq!(normalize_backend_path("/a/./b//c/../d/").ok(), Some("/a/b/d".to_string()));
    assert_eq!(normalize_backend_path("/").ok(), Some("/".to_string()));
    match normalize_backend_path("/a/../..") {
        Err(OperationError::InvalidPath { message }) => assert_eq!(message, "path escapes root: /a/../.."),
        _ => panic!("expected escape error"),
    }
    match normalize_backend_path("a/b") {
        Err(OperationError::InvalidPath { message }) => assert_eq!(message, "path must be absolute: a/b"),
        _ => panic!("expected relative error"),
    }
    let once = normalize_backend_path("/x/y/../z").ok().unwrap();
    assert_eq!(normalize_backend_path(once.as_str()).ok(), Some(once.clone()));
}

#[test]
fn backend_errors_display_and_convert() {
    let e = BackendError::NotFound { backend_id: "bkd_1".to_string() };
    assert_eq!(e.message(), "managed backend not found: bkd_1");
    match e.into_build_error() {
        BackendBuildError::BuildFailed { message } => assert_eq!(message, "managed backend not found: bkd_1"),
        _ => panic!("unexpected conversion"),
    }
    match BackendError::NeedsEviction.into_build_error() {
        BackendBuildError::ResourceLimitExceeded { message } => assert_eq!(message, "needs eviction before creation"),
        _ => panic!("unexpected conversion"),
    }
    match BackendError::from_build_error(BackendBuildError::Unsupported { message: "m".to_string() }) {
        BackendError::BuildFailed { message } => assert_eq!(message, "m"),
        _ => panic!("unexpected conversion"),
    }
    let limits = BackendManagerLimits::default();
    assert!(limits.checkpoint_before_eviction);
    assert_eq!(limits.max_eviction_attempts, 5);
    assert_eq!(limits.max_active_sandboxes_per_key, None);
}

#[test]
fn checkpoint_target_resolution() {
    let mut index = StrMap::new();
    index.insert("s1".to_string(), "bkd_a".to_string());
    assert_eq!(resolve_checkpoint_backend_id(&index, None, Some("s1")).ok(), Some("bkd_a".to_string()));
    assert_eq!(resolve_checkpoint_backend_id(&index, Some("bkd_a"), Some("s1")).ok(), Some("bkd_a".to_string()));
    match resolve_checkpoint_backend_id(&index, Some("bkd_b"), Some("s1")) {
        Err(BackendError::Conflict { message }) => {
            assert_eq!(message, "backend_id bkd_b does not match session_id backend bkd_a")
        }
        _ => panic!("expected conflict"),
    }
    match resolve_checkpoint_backend_id(&index, Some("bkd_b"), Some("s2")) {
        Err(BackendError::NotFound { backend_id }) => assert_eq!(backend_id, "session:s2"),
        _ => panic!("expected not found"),
    }
    match resolve_checkpoint_backend_id(&index, Some("  "), None) {
        Err(BackendError::InvalidRequest { message }) => assert_eq!(message, "checkpoint requires backend_id or session_id"),
        _ => panic!("expected invalid request"),
    }
}

#[test]
fn checkout_metadata_records_the_checkpoint() {
    let meta = checkout_metadata(JsonValue::Null, "cp1", Some("snap1"), None, "bkd_child");
    assert!(matches!(meta.get("xiaoo_checkpoint_id"), Some(JsonValue::Str(s)) if s == "cp1"));
    assert!(matches!(meta.get("xiaoo_provider_snapshot_id"), Some(JsonValue::Str(s)) if s == "snap1"));
    assert!(meta.get("xiaoo_checkpoint_source_backend_id").is_none());
    assert!(matches!(meta.get("xiaoo_checkout_child_backend_id"), Some(JsonValue::Str(s)) if s == "bkd_child"));
}

#[test]
fn metadata_filter_matches_string_members() {
    let meta = JsonValue::Object(vec![
        ("team".to_string(), JsonValue::Str("a".to_string())),
        ("n".to_string(), JsonValue::Number("1".to_string())),
    ]);
    let empty: StrMap<String> = StrMap::new();
    assert!(metadata_matches_filter(&JsonValue::Null, &empty));
    let mut filter = StrMap::new();
    filter.insert("team".to_string(), "a".to_string());
    assert!(metadata_matches_filter(&meta, &filter));
    filter.insert("n".to_string(), "1".to_string());
    assert!(!metadata_matches_filter(&meta, &filter));
    let mut other = StrMap::new();
    other.insert("team".to_string(), "a".to_string());
    assert!(!metadata_matches_filter(&JsonValue::Null, &other));
}

fn conch_options() -> ConchBackendOptions {
    ConchBackendOptions {
        unix_socket: Some("/run/conch.sock".to_string()),
        api_url: None,
        namespace: None,
        image_name: Some("img".to_string()),
        snapshot_id: None,
        use_snapshot: None,
        vmm_name: None,
        vcpu_num: None,
        ram_mb: None,
        workspace_root: "/workspace/".to_string(),
        home_dir: None,
        temp_root: None,
        default_shell: None,
        sandbox_id_prefix: None,
        sandbox_id: None,
    }
}

#[test]
fn conch_config_defaults_and_errors() {
    let config = validate_conch_config_with(&conch_options(), "abc").ok().expect("valid");
    assert_eq!(config.backend_id, "conch:xiaoo-conch-abc");
    assert_eq!(config.workspace_root, "/workspace");
    assert_eq!(config.temp_root, "/tmp");
    assert!(matches!(config.transport, ConchControlTransport::UnixSocket(ref p) if p == "/run/conch.sock"));
    assert_eq!(config.create_options.vmm_name, "cloud-hypervisor");
    assert_eq!(config.create_options.vcpu_num, 1);
    assert_eq!(config.create_options.ram_mb, 1024);
    assert!(!config.create_options.use_snapshot);

    let mut both = conch_options();
    both.api_url = Some("http://x".to_string());
    match validate_conch_config(&both) {
        Err(BackendBuildError::InvalidConfig { message }) => {
            assert_eq!(message, "conch backend config cannot specify both unix_socket and api_url")
        }
        _ => panic!("expected invalid config"),
    }
    let mut no_image = conch_options();
    no_image.image_name = None;
    no_image.snapshot_id = Some(String::new());
    match validate_conch_config(&no_image) {
        Err(BackendBuildError::InvalidConfig { message }) => {
            assert_eq!(message, "conch backend requires image_name when snapshot_id is absent")
        }
        _ => panic!("expected invalid config"),
    }
    let generated = validate_conch_config(&conch_options()).ok().expect("valid");
    assert!(generated.backend_id.starts_with("conch:xiaoo-conch-"));
    assert_eq!(generated.backend_id.len(), "conch:xiaoo-conch-".len() + 32);
}

#[test]
fn dirty_tracker_reuses_checkpoint_until_a_change() {
    let mut tracker: BackendDirtyTracker<u32> = BackendDirtyTracker::new();
    assert!(tracker.reusable_checkpoint().is_none());
    tracker.set_checkpoint("cp1".to_string(), 7);
    assert_eq!(tracker.reusable_checkpoint(), Some(&7));
    tracker.mark_dirty();
    assert!(tracker.reusable_checkpoint().is_none());
    assert_eq!(tracker.checkpoint(), Some(&7));
    tracker.clear_checkpoint_if_matches("other");
    assert_eq!(tracker.checkpoint(), Some(&7));
    tracker.clear_checkpoint_if_matches("cp1");
    assert!(tracker.checkpoint().is_none());
    assert!(tracker.is_dirty());
}

#[test]
fn labels_of_states_endpoints_and_files() {
    assert_eq!(backend_state_label(BackendLifecycleState::Paused), "paused");
    assert_eq!(
        backend_endpoint_str(Some(BackendEndpoint::Tcp { host: "h".to_string(), port: 80 })).as_deref(),
        Some("tcp://h:80")
    );
    assert_eq!(backend_endpoint_str(None), None);
    assert_eq!(backend_endpoint_kind(Some(BackendEndpoint::UnixSocket { path: "/s".to_string() })), Some("unix_socket"));
    assert_eq!(file_type_to_kind(Some("FILE_TYPE_DIRECTORY")), Some(PathKind::Directory));
    assert_eq!(file_type_to_kind(Some("FILE_TYPE_UNSPECIFIED")), None);
    assert_eq!(file_type_to_kind(Some("weird")), Some(PathKind::Other));
    let stat = path_stat_from_entry(Some(EntryInfo {
        file_type: Some("FILE_TYPE_FILE".to_string()),
        size: Some(SizeValue::Text("+42".to_string())),
    }));
    assert!(stat.exists);
    assert_eq!(stat.kind, Some(PathKind::File));
    assert_eq!(stat.size_bytes, Some(42));
    assert!(!path_stat_from_entry(None).exists);
    let script = temp_path_script("/tmp", None, None, true);
    assert!(script.starts_with("mkdir -p '/tmp'\nprefix='tmp-'\nsuffix=''\n"));
    assert!(script.contains("mkdir \"$path\""));
}
