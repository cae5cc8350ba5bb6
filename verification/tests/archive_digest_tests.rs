use std::path::PathBuf;

use xiaoo_shared::e2b_bootstrap::E2bBootstrapArchive;
use xiaoo_shared::json_canonical::config_hash;
use xiaoo_shared::session_record::E2B_BOOTSTRAP_MANIFEST_VERSION;
use xiaoo_shared::sha256_digest::{sha256_hex, to_lower_hex, Sha256Stream};

#[test]
fn sha256_of_known_input() {
    assert_eq!(sha256_hex(b"abc"), "ba7816bf8f01cfea414140de5dae2223b00361a396177a9cb410ff61f20015ad");
    assert_eq!(sha256_hex(b""), "e3b0c44298fc1c149afbf4c8996fb92427ae41e4649b934ca495991b7852b855");
}

#[test]
fn chunked_digest_equals_whole_digest() {
    let mut stream = Sha256Stream::new();
    stream.update(b"a");
    stream.update(b"");
    stream.update(b"bc");
    assert_eq!(stream.finish_hex(), sha256_hex(b"abc"));
}

#[test]
fn lower_hex_writes_two_digits_a_byte() {
    assert_eq!(to_lower_hex(&[0x00, 0x0f, 0xa0, 0xff]), "000fa0ff");
}

#[test]
fn archive_binding_records_its_digest_and_places() {
    let mut digest = Sha256Stream::new();
    digest.update(b"abc");
    let archive = E2bBootstrapArchive::new(
        PathBuf::from("/tmp/archive.tar"),
        digest,
        3,
        Some(PathBuf::from("/src/ws")),
        vec![PathBuf::from("/src/skills"), PathBuf::from("/src/more")],
        Vec::new(),
    );
    assert_eq!(archive.sha256(), sha256_hex(b"abc"));
    assert_eq!(archive.size_bytes(), 3);
    let binding = archive.binding();
    assert_eq!(binding.content_digest, archive.sha256());
    assert_eq!(binding.source_workspace, Some(PathBuf::from("/src/ws")));
    assert_eq!(binding.remote_workspace_root, PathBuf::from("/home/user/workspace"));
    assert_eq!(
        binding.remote_skill_roots,
        vec![PathBuf::from("/home/user/.xiaoo/skills/0"), PathBuf::from("/home/user/.xiaoo/skills/1")]
    );
    assert_eq!(binding.manifest_version, E2B_BOOTSTRAP_MANIFEST_VERSION);
}

#[test]
fn config_hash_depends_on_kind_and_text() {
    let text = "{\"home_dir\":\"/home/user\"}";
    assert_eq!(config_hash("local", text), config_hash("local", text));
    assert_ne!(config_hash("local", text), config_hash("e2b", text));
}
