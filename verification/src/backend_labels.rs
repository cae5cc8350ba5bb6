//! Display text of backend states and endpoints, and the reading of file
//! entries reported by a sandbox.

use vstd::prelude::*;
use crate::e2b_backend::{shell_quote, shell_quote_spec};
use crate::strmap::str_equal;
use crate::text::{decimal, parse_u64, parse_u64_spec, push_decimal, push_str};

verus! {

#[derive(Debug, Clone, Copy, PartialEq, Eq, Structural)]
pub enum BackendLifecycleState {
    Unknown,
    Creating,
    Active,
    Pausing,
    Paused,
    Loading,
    Deleting,
    Deleted,
    Failed,
}

pub open spec fn state_label_spec(s: BackendLifecycleState) -> Seq<char> {
    match s {
        BackendLifecycleState::Unknown => "unknown"@,
        BackendLifecycleState::Creating => "creating"@,
        BackendLifecycleState::Active => "active"@,
        BackendLifecycleState::Pausing => "pausing"@,
        BackendLifecycleState::Paused => "paused"@,
        BackendLifecycleState::Loading => "loading"@,
        BackendLifecycleState::Deleting => "deleting"@,
        BackendLifecycleState::Deleted => "deleted"@,
        BackendLifecycleState::Failed => "failed"@,
    }
}

/// The display text of a backend state.
pub fn backend_state_label(state: BackendLifecycleState) -> (s: &'static str)
    ensures
        s@ == state_label_spec(state),
{
    match state {
        BackendLifecycleState::Unknown => "unknown",
        BackendLifecycleState::Creating => "creating",
        BackendLifecycleState::Active => "active",
        BackendLifecycleState::Pausing => "pausing",
        BackendLifecycleState::Paused => "paused",
        BackendLifecycleState::Loading => "loading",
        BackendLifecycleState::Deleting => "deleting",
        BackendLifecycleState::Deleted => "deleted",
        BackendLifecycleState::Failed => "failed",
    }
}

/// Where a backend is reached; a provider handle is kept as its JSON text.
#[derive(Debug)]
pub enum BackendEndpoint {
    Local,
    Tcp { host: String, port: u16 },
    UnixSocket { path: String },
    ProviderHandle { value_json: String },
}

pub open spec fn endpoint_text(e: BackendEndpoint) -> Seq<char> {
    match e {
        BackendEndpoint::Local => "local"@,
        BackendEndpoint::Tcp { host, port } => "tcp://"@ + host@ + ":"@ + decimal(port as nat),
        BackendEndpoint::UnixSocket { path } => "unix:"@ + path@,
        BackendEndpoint::ProviderHandle { value_json } => "provider:"@ + value_json@,
    }
}

/// The display text of an endpoint.
pub fn backend_endpoint_str(endpoint: Option<BackendEndpoint>) -> (s: Option<String>)
    ensures
        match endpoint {
            Some(e) => s matches Some(t) && t@ == endpoint_text(e),
            None => s is None,
        },
{
    match endpoint {
        None => None,
        Some(e) => {
            let mut s = String::new();
            match &e {
                BackendEndpoint::Local => push_str(&mut s, "local"),
                BackendEndpoint::Tcp { host, port } => {
                    push_str(&mut s, "tcp://");
                    push_str(&mut s, host.as_str());
                    push_str(&mut s, ":");
                    push_decimal(&mut s, *port as u64);
                },
                BackendEndpoint::UnixSocket { path } => {
                    push_str(&mut s, "unix:");
                    push_str(&mut s, path.as_str());
                },
                BackendEndpoint::ProviderHandle { value_json } => {
                    push_str(&mut s, "provider:");
                    push_str(&mut s, value_json.as_str());
                },
            }
            proof {
                reveal_strlit("");
                assert(s@ =~= endpoint_text(e));
            }
            Some(s)
        },
    }
}

pub open spec fn endpoint_kind_spec(e: BackendEndpoint) -> Seq<char> {
    match e {
        BackendEndpoint::Local => "local"@,
        BackendEndpoint::Tcp { .. } => "tcp"@,
        BackendEndpoint::UnixSocket { .. } => "unix_socket"@,
        BackendEndpoint::ProviderHandle { .. } => "provider_handle"@,
    }
}

/// The transport class of an endpoint, without its address.
pub fn backend_endpoint_kind(endpoint: Option<BackendEndpoint>) -> (s: Option<&'static str>)
    ensures
        match endpoint {
            Some(e) => s matches Some(t) && t@ == endpoint_kind_spec(e),
            None => s is None,
        },
{
    match endpoint {
        None => None,
        Some(BackendEndpoint::Local) => Some("local"),
        Some(BackendEndpoint::Tcp { .. }) => Some("tcp"),
        Some(BackendEndpoint::UnixSocket { .. }) => Some("unix_socket"),
        Some(BackendEndpoint::ProviderHandle { .. }) => Some("provider_handle"),
    }
}

// ----------------------------------------------------------------------------
// File entries

#[derive(Debug, Clone, Copy, PartialEq, Eq, Structural)]
pub enum PathKind {
    File,
    Directory,
    Symlink,
    Other,
}

/// The kind of an envd file type name; unspecified or absent is unknown.
pub open spec fn file_kind_spec(t: Option<Seq<char>>) -> Option<PathKind> {
    match t {
        None => None,
        Some(n) => if n == "FILE_TYPE_FILE"@ { Some(PathKind::File) }
            else if n == "FILE_TYPE_DIRECTORY"@ { Some(PathKind::Directory) }
            else if n == "FILE_TYPE_SYMLINK"@ { Some(PathKind::Symlink) }
            else if n == "FILE_TYPE_UNSPECIFIED"@ { None }
            else { Some(PathKind::Other) },
    }
}

pub fn file_type_to_kind(value: Option<&str>) -> (k: Option<PathKind>)
    ensures
        k == file_kind_spec(match value { Some(v) => Some(v@), None => None }),
{
    match value {
        None => None,
        Some(v) => {
            if str_equal(v, "FILE_TYPE_FILE") {
                Some(PathKind::File)
            } else if str_equal(v, "FILE_TYPE_DIRECTORY") {
                Some(PathKind::Directory)
            } else if str_equal(v, "FILE_TYPE_SYMLINK") {
                Some(PathKind::Symlink)
            } else if str_equal(v, "FILE_TYPE_UNSPECIFIED") {
                None
            } else {
                Some(PathKind::Other)
            }
        },
    }
}

/// A size reported as a number or as decimal text.
#[derive(Debug)]
pub enum SizeValue {
    Number(u64),
    Text(String),
}

impl SizeValue {
    pub fn as_u64(&self) -> (r: Option<u64>)
        ensures
            r == (match *self {
                SizeValue::Number(n) => Some(n),
                SizeValue::Text(t) => parse_u64_spec(t@),
            }),
    {
        match self {
            SizeValue::Number(n) => Some(*n),
            SizeValue::Text(t) => parse_u64(t.as_str()),
        }
    }
}

/// A file entry reported by the sandbox.
#[derive(Debug)]
pub struct EntryInfo {
    pub file_type: Option<String>,
    pub size: Option<SizeValue>,
}

/// What is known of a path.
#[derive(Debug, Clone, Copy, PartialEq, Eq, Structural)]
pub struct PathStat {
    pub exists: bool,
    pub kind: Option<PathKind>,
    pub size_bytes: Option<u64>,
}

/// The stat of a path from its entry: no entry means it does not exist.
pub fn path_stat_from_entry(entry: Option<EntryInfo>) -> (s: PathStat)
    ensures
        match entry {
            None => !s.exists && s.kind is None && s.size_bytes is None,
            Some(e) => s.exists
                && s.kind == file_kind_spec(match e.file_type { Some(t) => Some(t@), None => None })
                && s.size_bytes == (match e.size {
                    Some(SizeValue::Number(n)) => Some(n),
                    Some(SizeValue::Text(t)) => parse_u64_spec(t@),
                    None => None,
                }),
        },
{
    match entry {
        None => PathStat { exists: false, kind: None, size_bytes: None },
        Some(e) => {
            let kind = match &e.file_type {
                Some(t) => file_type_to_kind(Some(t.as_str())),
                None => file_type_to_kind(None),
            };
            let size_bytes = match &e.size {
                Some(v) => v.as_u64(),
                None => None,
            };
            PathStat { exists: true, kind, size_bytes }
        },
    }
}

/// The shell script that creates a fresh temporary file or directory under
/// `parent` and prints its path.
pub open spec fn temp_path_script_spec(parent: Seq<char>, prefix: Seq<char>, suffix: Seq<char>, directory: bool) -> Seq<char> {
    "mkdir -p "@ + shell_quote_spec(parent) + "\nprefix="@ + shell_quote_spec(prefix) + "\nsuffix="@ + shell_quote_spec(suffix)
        + "\nwhile true; do\n  path=\""@ + parent + "/$prefix$(date +%s%N)-$RANDOM$suffix\"\n  if [ ! -e \"$path\" ]; then\n    "@
        + (if directory { "mkdir \"$path\""@ } else { ": > \"$path\""@ })
        + "\n    printf '%s' \"$path\"\n    exit 0\n  fi\ndone"@
}

pub fn temp_path_script(parent: &str, prefix: Option<&str>, suffix: Option<&str>, directory: bool) -> (s: String)
    ensures
        s@ == temp_path_script_spec(parent@, match prefix { Some(p) => p@, None => "tmp-"@ },
            match suffix { Some(x) => x@, None => ""@ }, directory),
{
    let prefix = match prefix {
        Some(p) => p,
        None => "tmp-",
    };
    let suffix = match suffix {
        Some(x) => x,
        None => "",
    };
    let mut s = String::from_str("mkdir -p ");
    let q = shell_quote(parent);
    push_str(&mut s, q.as_str());
    push_str(&mut s, "\nprefix=");
    let q = shell_quote(prefix);
    push_str(&mut s, q.as_str());
    push_str(&mut s, "\nsuffix=");
    let q = shell_quote(suffix);
    push_str(&mut s, q.as_str());
    push_str(&mut s, "\nwhile true; do\n  path=\"");
    push_str(&mut s, parent);
    push_str(&mut s, "/$prefix$(date +%s%N)-$RANDOM$suffix\"\n  if [ ! -e \"$path\" ]; then\n    ");
    if directory {
        push_str(&mut s, "mkdir \"$path\"");
    } else {
        push_str(&mut s, ": > \"$path\"");
    }
    push_str(&mut s, "\n    printf '%s' \"$path\"\n    exit 0\n  fi\ndone");
    s
}

} // verus!
