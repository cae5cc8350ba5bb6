use xiaoo_shared::bootstrap_paths::{
    join_relative, path_below, path_under, remote_skill_root, remote_skill_roots, skill_root_index,
    symlink_archive_target,
};
use xiaoo_shared::e2b_bootstrap::{refuse_special_entry, E2bBootstrapBuildError, SourceEntryKind};

#[test]
fn path_under_compares_whole_components() {
    assert!(path_under("/a/b", "/a/b"));
    assert!(path_under("/a/b/c", "/a/b"));
    assert!(!path_under("/a/bc", "/a/b"));
    assert!(!path_under("/a", "/a/b"));
    assert!(path_under("/x", "/"));
    assert_eq!(path_below("/a/b/c/d", "/a/b"), "c/d");
    assert_eq!(path_below("/a/b", "/a/b"), "");
    assert_eq!(path_below("/x/y", "/"), "x/y");
}

#[test]
fn join_relative_inserts_one_separator() {
    assert_eq!(join_relative("/home/user/workspace", "src/lib.rs"), "/home/user/workspace/src/lib.rs");
    assert_eq!(join_relative("/home/user/", "a"), "/home/user/a");
    assert_eq!(join_relative("/home/user", ""), "/home/user/");
}

#[test]
fn skill_root_is_the_first_containing_root() {
    let roots = vec!["/skills/a".to_string(), "/skills".to_string()];
    assert_eq!(skill_root_index("s", "/skills/a/one", &roots).unwrap(), 0);
    assert_eq!(skill_root_index("s", "/skills/b/two", &roots).unwrap(), 1);
    match skill_root_index("demo", "/elsewhere/x", &roots) {
        Err(E2bBootstrapBuildError::InvalidPath { message }) => {
            assert_eq!(message, "skill 'demo' resolved outside all requested roots: /elsewhere/x")
        }
        other => panic!("unexpected {:?}", other),
    }
}

#[test]
fn remote_skill_roots_are_numbered() {
    assert_eq!(remote_skill_root(0), "/home/user/.xiaoo/skills/0");
    assert_eq!(remote_skill_root(12), "/home/user/.xiaoo/skills/12");
}

#[test]
fn symlink_targets_are_rewritten_or_refused() {
    let root = "/src/ws";
    let remote = "/home/user/workspace";
    assert_eq!(
        symlink_archive_target(root, remote, "/src/ws/link", "/src/ws/data/file.txt", "/src/ws/data/file.txt").unwrap(),
        "/home/user/workspace/data/file.txt"
    );
    assert_eq!(symlink_archive_target(root, remote, "/src/ws/link", "data/file.txt", "/src/ws/data/file.txt").unwrap(), "data/file.txt");
    match symlink_archive_target(root, remote, "/src/ws/link", "../../etc/passwd", "/etc/passwd") {
        Err(E2bBootstrapBuildError::InvalidPath { message }) => {
            assert_eq!(message, "symbolic link escapes input root: /src/ws/link -> ../../etc/passwd")
        }
        other => panic!("unexpected {:?}", other),
    }
}

#[test]
fn remote_skill_roots_are_numbered_in_order() {
    let roots = remote_skill_roots(3);
    assert_eq!(roots.len(), 3);
    for (index, root) in roots.iter().enumerate() {
        assert_eq!(root, &remote_skill_root(index as u64));
    }
    assert!(remote_skill_roots(0).is_empty());
}

#[test]
fn special_entries_refuse_the_archive() {
    assert!(refuse_special_entry(SourceEntryKind::Directory, "/src/a").is_none());
    assert!(refuse_special_entry(SourceEntryKind::File, "/src/a").is_none());
    assert!(refuse_special_entry(SourceEntryKind::Symlink, "/src/a").is_none());
    match refuse_special_entry(SourceEntryKind::Fifo, "/src/pipe") {
        Some(E2bBootstrapBuildError::InvalidPath { message }) => assert_eq!(message, "unsupported FIFO: /src/pipe"),
        other => panic!("unexpected {:?}", other),
    }
    match refuse_special_entry(SourceEntryKind::CharDevice, "/dev/x") {
        Some(E2bBootstrapBuildError::InvalidPath { message }) => assert_eq!(message, "unsupported character device: /dev/x"),
        other => panic!("unexpected {:?}", other),
    }
    match refuse_special_entry(SourceEntryKind::Other, "/src/door") {
        Some(E2bBootstrapBuildError::InvalidPath { message }) => assert_eq!(message, "unsupported special file: /src/door"),
        other => panic!("unexpected {:?}", other),
    }
}
