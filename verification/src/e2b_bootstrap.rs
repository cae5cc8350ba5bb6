//! The E2B bootstrap archive: the limits it is built within, its errors,
//! the names it gives skills inside the archive and the sandbox, and the
//! finished archive's identity.

use vstd::prelude::*;
use std::path::PathBuf;
use crate::bootstrap_paths::remote_skill_roots;
use crate::session_record::{
    path_from_string, path_text, RuntimeBootstrapBinding, RuntimeBootstrapSkill, E2B_BOOTSTRAP_MANIFEST_VERSION,
    E2B_REMOTE_SKILLS_ROOT, E2B_REMOTE_WORKSPACE_ROOT,
};
use crate::sha256_digest::{lower_hex, sha256_of, Sha256Stream};
use crate::text::{decimal, push_char, push_decimal, push_str};

verus! {

pub const E2B_BOOTSTRAP_MAX_ENTRIES: u64 = 100_000;
pub const E2B_BOOTSTRAP_MAX_FILE_BYTES: u64 = 134_217_728;
pub const E2B_BOOTSTRAP_MAX_TOTAL_BYTES: u64 = 1_073_741_824;

/// Why building a bootstrap archive failed.
#[derive(Debug)]
pub enum E2bBootstrapBuildError {
    InvalidPath { message: String },
    SourceChanged { path: String },
    CapacityExceeded { message: String },
    BuildFailed { message: String },
}

pub open spec fn bootstrap_error_text(e: E2bBootstrapBuildError) -> Seq<char> {
    match e {
        E2bBootstrapBuildError::InvalidPath { message } => "invalid bootstrap path: "@ + message@,
        E2bBootstrapBuildError::SourceChanged { path } => "bootstrap source changed while being archived: "@ + path@,
        E2bBootstrapBuildError::CapacityExceeded { message } => "bootstrap capacity exceeded: "@ + message@,
        E2bBootstrapBuildError::BuildFailed { message } => "failed to build bootstrap archive: "@ + message@,
    }
}

impl E2bBootstrapBuildError {
    /// The error's text, as displayed to users.
    pub fn message(&self) -> (s: String)
        ensures
            s@ == bootstrap_error_text(*self),
    {
        let (prefix, detail) = match self {
            E2bBootstrapBuildError::InvalidPath { message } => ("invalid bootstrap path: ", message.as_str()),
            E2bBootstrapBuildError::SourceChanged { path } => ("bootstrap source changed while being archived: ", path.as_str()),
            E2bBootstrapBuildError::CapacityExceeded { message } => ("bootstrap capacity exceeded: ", message.as_str()),
            E2bBootstrapBuildError::BuildFailed { message } => ("failed to build bootstrap archive: ", message.as_str()),
        };
        let mut s = String::from_str(prefix);
        push_str(&mut s, detail);
        s
    }
}

/// The kind of an entry met while walking a source tree.
#[derive(Debug, Clone, Copy, PartialEq, Eq, Structural)]
pub enum SourceEntryKind {
    Directory,
    File,
    Symlink,
    Socket,
    Fifo,
    BlockDevice,
    CharDevice,
    /// Any other special file.
    Other,
}

/// How an entry of a kind that cannot be archived is named in the error.
pub open spec fn special_kind_name(kind: SourceEntryKind) -> Seq<char> {
    match kind {
        SourceEntryKind::Socket => "socket"@,
        SourceEntryKind::Fifo => "FIFO"@,
        SourceEntryKind::BlockDevice => "block device"@,
        SourceEntryKind::CharDevice => "character device"@,
        _ => "special file"@,
    }
}

/// Whether entries of `kind` go into the archive.
pub open spec fn archivable(kind: SourceEntryKind) -> bool {
    kind == SourceEntryKind::Directory || kind == SourceEntryKind::File || kind == SourceEntryKind::Symlink
}

/// Directories, regular files and symbolic links are archived; any other
/// entry refuses the whole archive, naming its kind and `path`.
pub fn refuse_special_entry(kind: SourceEntryKind, path: &str) -> (r: Option<E2bBootstrapBuildError>)
    ensures
        archivable(kind) ==> r is None,
        !archivable(kind) ==> (r matches Some(E2bBootstrapBuildError::InvalidPath { message })
            && message@ == "unsupported "@ + special_kind_name(kind) + ": "@ + path@),
{
    let name = match kind {
        SourceEntryKind::Directory | SourceEntryKind::File | SourceEntryKind::Symlink => {
            return None;
        },
        SourceEntryKind::Socket => "socket",
        SourceEntryKind::Fifo => "FIFO",
        SourceEntryKind::BlockDevice => "block device",
        SourceEntryKind::CharDevice => "character device",
        SourceEntryKind::Other => "special file",
    };
    let mut message = String::from_str("unsupported ");
    push_str(&mut message, name);
    push_str(&mut message, ": ");
    push_str(&mut message, path);
    Some(E2bBootstrapBuildError::InvalidPath { message })
}

/// Entries and regular-file bytes counted into an archive so far.
#[derive(Debug, Clone, Copy)]
pub struct ArchiveLimits {
    pub entries: u64,
    pub total_bytes: u64,
}

/// Whether the counts are within the archive's limits.
pub open spec fn within_limits(l: ArchiveLimits) -> bool {
    l.entries <= E2B_BOOTSTRAP_MAX_ENTRIES && l.total_bytes <= E2B_BOOTSTRAP_MAX_TOTAL_BYTES
}

impl Default for ArchiveLimits {
    fn default() -> (l: Self)
        ensures
            l.entries == 0 && l.total_bytes == 0,
    {
        ArchiveLimits { entries: 0, total_bytes: 0 }
    }
}

impl ArchiveLimits {
    /// Count one more entry (at `path`); more than the entry limit is a
    /// capacity error.
    pub fn add_entry(&mut self, path: &str) -> (r: Result<(), E2bBootstrapBuildError>)
        ensures
            final(self).entries == (if old(self).entries == u64::MAX { u64::MAX } else { (old(self).entries + 1) as u64 }),
            final(self).total_bytes == old(self).total_bytes,
            r is Ok <==> final(self).entries <= E2B_BOOTSTRAP_MAX_ENTRIES,
            r matches Err(e) ==> (e matches E2bBootstrapBuildError::CapacityExceeded { message }
                && message@ == "more than "@ + decimal(E2B_BOOTSTRAP_MAX_ENTRIES as nat) + " entries (at "@ + path@ + ")"@),
    {
        self.entries = self.entries.saturating_add(1);
        if self.entries > E2B_BOOTSTRAP_MAX_ENTRIES {
            let mut message = String::from_str("more than ");
            push_decimal(&mut message, E2B_BOOTSTRAP_MAX_ENTRIES);
            push_str(&mut message, " entries (at ");
            push_str(&mut message, path);
            push_str(&mut message, ")");
            return Err(E2bBootstrapBuildError::CapacityExceeded { message });
        }
        Ok(())
    }

    /// Count one more regular file of `size` bytes: the entry limit, then
    /// the per-file limit, then the total limit.
    pub fn add_file(&mut self, path: &str, size: u64) -> (r: Result<(), E2bBootstrapBuildError>)
        ensures
            ({
                let entries = if old(self).entries == u64::MAX { u64::MAX } else { (old(self).entries + 1) as u64 };
                let total = if old(self).total_bytes + size > u64::MAX { u64::MAX } else { (old(self).total_bytes + size) as u64 };
                &&& final(self).entries == entries
                &&& entries > E2B_BOOTSTRAP_MAX_ENTRIES ==> (r is Err && final(self).total_bytes == old(self).total_bytes)
                &&& entries <= E2B_BOOTSTRAP_MAX_ENTRIES && size > E2B_BOOTSTRAP_MAX_FILE_BYTES ==> (r matches Err(
                    E2bBootstrapBuildError::CapacityExceeded { message }) && message@ == "file "@ + path@ + " is "@ + decimal(size as nat)
                    + " bytes; per-file limit is "@ + decimal(E2B_BOOTSTRAP_MAX_FILE_BYTES as nat)
                    && final(self).total_bytes == old(self).total_bytes)
                &&& entries <= E2B_BOOTSTRAP_MAX_ENTRIES && size <= E2B_BOOTSTRAP_MAX_FILE_BYTES ==> (final(self).total_bytes == total
                    && (r is Ok <==> total <= E2B_BOOTSTRAP_MAX_TOTAL_BYTES)
                    && (r matches Err(e) ==> (e matches E2bBootstrapBuildError::CapacityExceeded { message }
                        && message@ == "regular-file content exceeds "@ + decimal(E2B_BOOTSTRAP_MAX_TOTAL_BYTES as nat) + " bytes"@)))
            }),
    {
        self.add_entry(path)?;
        if size > E2B_BOOTSTRAP_MAX_FILE_BYTES {
            let mut message = String::from_str("file ");
            push_str(&mut message, path);
            push_str(&mut message, " is ");
            push_decimal(&mut message, size);
            push_str(&mut message, " bytes; per-file limit is ");
            push_decimal(&mut message, E2B_BOOTSTRAP_MAX_FILE_BYTES);
            return Err(E2bBootstrapBuildError::CapacityExceeded { message });
        }
        self.total_bytes = self.total_bytes.saturating_add(size);
        if self.total_bytes > E2B_BOOTSTRAP_MAX_TOTAL_BYTES {
            let mut message = String::from_str("regular-file content exceeds ");
            push_decimal(&mut message, E2B_BOOTSTRAP_MAX_TOTAL_BYTES);
            push_str(&mut message, " bytes");
            return Err(E2bBootstrapBuildError::CapacityExceeded { message });
        }
        Ok(())
    }
}

/// Counting that succeeds never leaves the limits: from counts within the
/// limits, a successful `add_entry` or `add_file` keeps them within.
pub proof fn law_successful_counting_stays_within_limits(l: ArchiveLimits, size: u64)
    requires
        within_limits(l),
    ensures
        ({
            let entries = if l.entries == u64::MAX { u64::MAX } else { (l.entries + 1) as u64 };
            entries <= E2B_BOOTSTRAP_MAX_ENTRIES ==> within_limits(ArchiveLimits { entries, total_bytes: l.total_bytes })
        }),
        ({
            let entries = if l.entries == u64::MAX { u64::MAX } else { (l.entries + 1) as u64 };
            let total = if l.total_bytes + size > u64::MAX { u64::MAX } else { (l.total_bytes + size) as u64 };
            (entries <= E2B_BOOTSTRAP_MAX_ENTRIES && size <= E2B_BOOTSTRAP_MAX_FILE_BYTES && total <= E2B_BOOTSTRAP_MAX_TOTAL_BYTES)
                ==> within_limits(ArchiveLimits { entries, total_bytes: total })
        }),
{
}

/// `n` in decimal, padded with zeros to at least `width` digits.
pub open spec fn zero_padded(n: nat, width: nat) -> Seq<char> {
    let d = decimal(n);
    if d.len() >= width { d } else { Seq::new((width - d.len()) as nat, |i: int| '0') + d }
}

/// How many zeros pad `n` to five digits.
proof fn lemma_padding(n: nat)
    ensures
        n < 10 ==> decimal(n).len() == 1,
        10 <= n < 100 ==> decimal(n).len() == 2,
        100 <= n < 1000 ==> decimal(n).len() == 3,
        1000 <= n < 10000 ==> decimal(n).len() == 4,
        n >= 10000 ==> decimal(n).len() >= 5,
    decreases n,
{
    if n >= 10 {
        lemma_padding(n / 10);
        assert(decimal(n).len() == decimal(n / 10).len() + 1);
    }
}

/// The directory name of the skill at `ordinal` inside its root:
/// `skill-` and the ordinal padded to five digits.
pub fn skill_leaf(ordinal: u64) -> (s: String)
    ensures
        s@ == "skill-"@ + zero_padded(ordinal as nat, 5),
{
    let mut s = String::from_str("skill-");
    proof { lemma_padding(ordinal as nat); }
    let missing: usize = if ordinal < 10 { 4 } else if ordinal < 100 { 3 } else if ordinal < 1000 { 2 }
        else if ordinal < 10000 { 1 } else { 0 };
    let ghost head = s@;
    let mut pad: usize = 0;
    while pad < missing
        invariant
            pad <= missing,
            s@ == head + Seq::new(pad as nat, |i: int| '0'),
        decreases missing - pad,
    {
        push_char(&mut s, '0');
        assert(s@ =~= head + Seq::new((pad + 1) as nat, |i: int| '0'));
        pad = pad + 1;
    }
    push_decimal(&mut s, ordinal);
    proof {
        reveal_strlit("skill-");
        if ordinal >= 10000 {
            assert(Seq::new(0nat, |i: int| '0') =~= Seq::<char>::empty());
        }
        assert(s@ =~= "skill-"@ + zero_padded(ordinal as nat, 5));
    }
    s
}

/// Where a skill goes inside the archive: `skills/<root>/<leaf>`.
pub fn skill_archive_dir(root_index: u64, leaf: &str) -> (s: String)
    ensures
        s@ == "skills/"@ + decimal(root_index as nat) + "/"@ + leaf@,
{
    let mut s = String::from_str("skills/");
    push_decimal(&mut s, root_index);
    push_str(&mut s, "/");
    push_str(&mut s, leaf);
    s
}

/// Where a skill goes in the sandbox: `<skills root>/<root>/<leaf>`.
pub fn skill_remote_dir(root_index: u64, leaf: &str) -> (s: String)
    ensures
        s@ == E2B_REMOTE_SKILLS_ROOT@ + "/"@ + decimal(root_index as nat) + "/"@ + leaf@,
{
    let mut s = String::from_str(E2B_REMOTE_SKILLS_ROOT);
    push_str(&mut s, "/");
    push_decimal(&mut s, root_index);
    push_str(&mut s, "/");
    push_str(&mut s, leaf);
    s
}

/// The manifest a skill is read from: `SKILL.toml` when the directory has
/// one, else `SKILL.md`.
pub fn skill_manifest_file(has_skill_toml: bool) -> (s: &'static str)
    ensures
        s@ == (if has_skill_toml { "SKILL.toml"@ } else { "SKILL.md"@ }),
{
    if has_skill_toml { "SKILL.toml" } else { "SKILL.md" }
}

/// The binding of an archive with digest `digest`, built from
/// `source_workspace` and `source_skill_roots` and placing `skills`: the
/// workspace at the remote workspace root, the skill root at `i` at the
/// remote skills root's `i`-th directory, under the current manifest version.
pub open spec fn binding_assembled(
    b: RuntimeBootstrapBinding,
    digest: Seq<char>,
    source_workspace: Option<PathBuf>,
    source_skill_roots: Vec<PathBuf>,
    skills: Vec<RuntimeBootstrapSkill>,
) -> bool {
    &&& b.source_workspace == source_workspace
    &&& b.source_skill_roots == source_skill_roots
    &&& b.content_digest@ == digest
    &&& path_text(b.remote_workspace_root) == E2B_REMOTE_WORKSPACE_ROOT@
    &&& b.remote_skill_roots@.len() == source_skill_roots@.len()
    &&& forall|i: int| 0 <= i < b.remote_skill_roots@.len() ==> path_text(#[trigger] b.remote_skill_roots@[i])
        == E2B_REMOTE_SKILLS_ROOT@ + "/"@ + decimal(i as nat)
    &&& b.skills == skills
    &&& b.manifest_version == E2B_BOOTSTRAP_MANIFEST_VERSION
}

/// A finished bootstrap archive on disk, with its digest and size.
#[derive(Debug)]
pub struct E2bBootstrapArchive {
    path: PathBuf,
    sha256: String,
    size_bytes: u64,
    binding: RuntimeBootstrapBinding,
}

impl E2bBootstrapArchive {
    /// The binding records the archive's own digest, 64 hex digits.
    #[verifier::type_invariant]
    spec fn digest_recorded(self) -> bool {
        self.binding.content_digest@ == self.sha256@ && self.sha256@.len() == 64
    }

    /// The archive at `path`, `size_bytes` long, whose bytes were fed to
    /// `digest`; its binding is assembled from the sources and skills.
    pub fn new(
        path: PathBuf,
        digest: Sha256Stream,
        size_bytes: u64,
        source_workspace: Option<PathBuf>,
        source_skill_roots: Vec<PathBuf>,
        skills: Vec<RuntimeBootstrapSkill>,
    ) -> (a: Self)
        ensures
            a.spec_path() == path,
            a.spec_sha256()@ == lower_hex(sha256_of(digest.fed())),
            a.spec_size_bytes() == size_bytes,
            binding_assembled(a.spec_binding(), a.spec_sha256()@, source_workspace, source_skill_roots, skills),
    {
        let sha256 = digest.finish_hex();
        let texts = remote_skill_roots(source_skill_roots.len());
        let mut roots: Vec<PathBuf> = Vec::new();
        let mut i: usize = 0;
        while i < texts.len()
            invariant
                texts@.len() == source_skill_roots@.len(),
                forall|j: int| 0 <= j < texts@.len() ==> #[trigger] texts@[j]@ == E2B_REMOTE_SKILLS_ROOT@ + "/"@ + decimal(j as nat),
                i <= texts@.len(),
                roots@.len() == i,
                forall|j: int| 0 <= j < i ==> path_text(#[trigger] roots@[j]) == E2B_REMOTE_SKILLS_ROOT@ + "/"@ + decimal(j as nat),
            decreases texts@.len() - i,
        {
            roots.push(path_from_string(String::from_str(texts[i].as_str())));
            i = i + 1;
        }
        let binding = RuntimeBootstrapBinding {
            source_workspace,
            source_skill_roots,
            content_digest: String::from_str(sha256.as_str()),
            remote_workspace_root: path_from_string(String::from_str(E2B_REMOTE_WORKSPACE_ROOT)),
            remote_skill_roots: roots,
            skills,
            manifest_version: E2B_BOOTSTRAP_MANIFEST_VERSION,
        };
        E2bBootstrapArchive { path, sha256, size_bytes, binding }
    }

    pub closed spec fn spec_path(&self) -> PathBuf {
        self.path
    }

    pub closed spec fn spec_sha256(&self) -> String {
        self.sha256
    }

    pub closed spec fn spec_size_bytes(&self) -> u64 {
        self.size_bytes
    }

    pub closed spec fn spec_binding(&self) -> RuntimeBootstrapBinding {
        self.binding
    }

    pub fn path(&self) -> (p: &PathBuf)
        ensures
            *p == self.spec_path(),
    {
        &self.path
    }

    pub fn sha256(&self) -> (s: &str)
        ensures
            s@ == self.spec_sha256()@,
            s@.len() == 64,
    {
        proof {
            use_type_invariant(self);
        }
        self.sha256.as_str()
    }

    pub fn size_bytes(&self) -> (n: u64)
        ensures
            n == self.spec_size_bytes(),
    {
        self.size_bytes
    }

    /// The binding, which records this archive's digest.
    pub fn binding(&self) -> (b: &RuntimeBootstrapBinding)
        ensures
            *b == self.spec_binding(),
            b.content_digest@ == self.spec_sha256()@,
    {
        proof {
            use_type_invariant(self);
        }
        &self.binding
    }
}

} // verus!
