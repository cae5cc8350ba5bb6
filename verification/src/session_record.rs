//! Plain session-record types shared by the runtime and the backends.

use vstd::prelude::*;
use std::collections::BTreeMap;
use std::path::PathBuf;

verus! {

#[verifier::external_type_specification]
#[verifier::external_body]
pub struct ExPathBuf(PathBuf);

/// The text a path holds (paths built here are built from text).
pub uninterp spec fn path_text(p: PathBuf) -> Seq<char>;

/// `PathBuf::from(String)`. Claimed: the path holds the string's text.
#[verifier::external_body]
pub(crate) fn path_from_string(s: String) -> (p: PathBuf)
    ensures
        path_text(p) == s@,
{
    PathBuf::from(s)
}

#[derive(Debug, Clone, Copy, PartialEq, Eq, Structural)]
pub enum SessionLifecycleStatus {
    Idle,
    Running,
    Paused,
    Failed,
    Closed,
}

/// A predefined subagent role.
#[derive(Debug, Clone)]
pub struct SubagentRoleRecord {
    pub role_id: String,
    pub description: String,
    pub prompt: Option<String>,
    pub max_turns: Option<u32>,
    pub tools: BTreeMap<String, bool>,
}

pub const E2B_BOOTSTRAP_MANIFEST_VERSION: u32 = 1;
pub const E2B_REMOTE_WORKSPACE_ROOT: &'static str = "/home/user/workspace";
pub const E2B_REMOTE_SKILLS_ROOT: &'static str = "/home/user/.xiaoo/skills";

/// Immutable host-to-E2B bootstrap identity persisted with the runtime.
#[derive(Debug)]
pub struct RuntimeBootstrapBinding {
    pub source_workspace: Option<PathBuf>,
    pub source_skill_roots: Vec<PathBuf>,
    pub content_digest: String,
    pub remote_workspace_root: PathBuf,
    pub remote_skill_roots: Vec<PathBuf>,
    pub skills: Vec<RuntimeBootstrapSkill>,
    pub manifest_version: u32,
}

/// One skill placed into an E2B sandbox by the bootstrap archive.
#[derive(Debug)]
pub struct RuntimeBootstrapSkill {
    pub name: String,
    pub remote_dir: PathBuf,
    pub manifest_file: String,
}

} // verus!
