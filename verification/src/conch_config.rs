//! Validation of a conch backend's options: the control transport, the
//! sandbox image or snapshot, the sandbox id, the paths inside the sandbox
//! and the defaults of the machine it runs on.

use vstd::prelude::*;
use crate::backend_base::BackendBuildError;
use crate::backend_path::{normalize_backend_path, normalize_outcome, OperationError};
use crate::e2b_backend::opt_view;
use crate::text::push_str;

verus! {

/// Options of a conch backend, as read from its configuration.
pub struct ConchBackendOptions {
    pub unix_socket: Option<String>,
    pub api_url: Option<String>,
    pub namespace: Option<String>,
    pub image_name: Option<String>,
    pub snapshot_id: Option<String>,
    pub use_snapshot: Option<bool>,
    pub vmm_name: Option<String>,
    pub vcpu_num: Option<i64>,
    pub ram_mb: Option<i64>,
    pub workspace_root: String,
    pub home_dir: Option<String>,
    pub temp_root: Option<String>,
    pub default_shell: Option<String>,
    pub sandbox_id_prefix: Option<String>,
    pub sandbox_id: Option<String>,
}

/// How the conch control plane is reached.
#[derive(Debug)]
pub enum ConchControlTransport {
    UnixSocket(String),
    ApiUrl(String),
}

/// What a sandbox is created with.
#[derive(Debug)]
pub struct ConchCreateOptions {
    pub namespace: String,
    pub sandbox_id: String,
    pub image_name: String,
    pub snapshot_id: Option<String>,
    pub use_snapshot: bool,
    pub vmm_name: String,
    pub vcpu_num: i64,
    pub ram_mb: i64,
}

/// A validated conch configuration.
#[derive(Debug)]
pub struct ValidatedConchConfig {
    pub backend_id: String,
    pub workspace_root: String,
    pub home_dir: Option<String>,
    pub temp_root: String,
    pub default_shell: Option<String>,
    pub transport: ConchControlTransport,
    pub namespace: String,
    pub create_options: ConchCreateOptions,
}

/// The first problem of the options, in the order they are checked: the
/// transport (exactly one of socket and URL), then an image when there is
/// no non-empty snapshot, then the three paths.
pub open spec fn conch_config_fault(o: ConchBackendOptions) -> Option<Seq<char>> {
    if o.unix_socket is Some && o.api_url is Some {
        Some("conch backend config cannot specify both unix_socket and api_url"@)
    } else if o.unix_socket is None && o.api_url is None {
        Some("conch backend requires unix_socket or api_url"@)
    } else if o.image_name is None && (match o.snapshot_id { Some(s) => s@.len() == 0, None => true }) {
        Some("conch backend requires image_name when snapshot_id is absent"@)
    } else if normalize_outcome(o.workspace_root@) is Err {
        Some(normalize_outcome(o.workspace_root@)->Err_0)
    } else if o.home_dir matches Some(h) && normalize_outcome(h@) is Err {
        Some(normalize_outcome(o.home_dir.unwrap()@)->Err_0)
    } else if o.temp_root matches Some(t) && normalize_outcome(t@) is Err {
        Some(normalize_outcome(o.temp_root.unwrap()@)->Err_0)
    } else {
        None
    }
}

/// The sandbox id: the configured one, else `<prefix>-<suffix>` with the
/// configured prefix or `xiaoo-conch`.
pub open spec fn conch_sandbox_id(o: ConchBackendOptions, suffix: Seq<char>) -> Seq<char> {
    match o.sandbox_id {
        Some(id) => id@,
        None => (match o.sandbox_id_prefix { Some(p) => p@, None => "xiaoo-conch"@ }) + "-"@ + suffix,
    }
}

fn path_or_invalid(p: &str) -> (r: Result<String, BackendBuildError>)
    ensures
        normalize_outcome(p@) matches Ok(q) ==> (r matches Ok(s) && s@ == q),
        normalize_outcome(p@) matches Err(m) ==> (r matches Err(BackendBuildError::InvalidConfig { message }) && message@ == m),
{
    match normalize_backend_path(p) {
        Ok(q) => Ok(q),
        Err(OperationError::InvalidPath { message }) => Err(BackendBuildError::InvalidConfig { message }),
        Err(_) => Err(BackendBuildError::InvalidConfig { message: String::new() }),
    }
}

fn copy_opt(o: &Option<String>) -> (r: Option<String>)
    ensures
        opt_view(r) == opt_view(*o),
{
    match o {
        Some(s) => Some(String::from_str(s.as_str())),
        None => None,
    }
}

/// What validating `options` with id suffix `id_suffix` gives on options
/// without a fault.
pub open spec fn conch_validated(options: ConchBackendOptions, id_suffix: Seq<char>, c: ValidatedConchConfig) -> bool {
    let sid = conch_sandbox_id(options, id_suffix);
    let ns = match options.namespace { Some(n) => n@, None => Seq::empty() };
    &&& c.backend_id@ == "conch:"@ + sid
    &&& c.create_options.sandbox_id@ == sid
    &&& (match options.unix_socket { Some(p) => c.transport matches ConchControlTransport::UnixSocket(q) && q@ == p@,
        None => c.transport matches ConchControlTransport::ApiUrl(u) && u@ == options.api_url.unwrap()@ })
    &&& Ok::<Seq<char>, Seq<char>>(c.workspace_root@) == normalize_outcome(options.workspace_root@)
    &&& (match options.home_dir { Some(h) => c.home_dir is Some && Ok::<Seq<char>, Seq<char>>(c.home_dir.unwrap()@) == normalize_outcome(h@),
        None => c.home_dir is None })
    &&& (match options.temp_root { Some(t) => Ok::<Seq<char>, Seq<char>>(c.temp_root@) == normalize_outcome(t@),
        None => c.temp_root@ == "/tmp"@ })
    &&& opt_view(c.default_shell) == opt_view(options.default_shell)
    &&& c.namespace@ == ns && c.create_options.namespace@ == ns
    &&& c.create_options.image_name@ == (match options.image_name { Some(i) => i@, None => Seq::empty() })
    &&& opt_view(c.create_options.snapshot_id) == opt_view(options.snapshot_id)
    &&& c.create_options.use_snapshot == (match options.use_snapshot { Some(b) => b, None => false })
    &&& c.create_options.vmm_name@ == (match options.vmm_name { Some(v) => v@, None => "cloud-hypervisor"@ })
    &&& c.create_options.vcpu_num == (match options.vcpu_num { Some(n) => n, None => 1 })
    &&& c.create_options.ram_mb == (match options.ram_mb { Some(n) => n, None => 1024 })
}

/// Validate conch options; `id_suffix` completes a generated sandbox id.
pub fn validate_conch_config_with(options: &ConchBackendOptions, id_suffix: &str) -> (r: Result<ValidatedConchConfig, BackendBuildError>)
    ensures
        conch_config_fault(*options) matches Some(m) ==> (r matches Err(BackendBuildError::InvalidConfig { message }) && message@ == m),
        conch_config_fault(*options) is None ==> (r matches Ok(c) && conch_validated(*options, id_suffix@, c)),
{
    let transport = match (&options.unix_socket, &options.api_url) {
        (Some(_), Some(_)) => {
            return Err(BackendBuildError::InvalidConfig {
                message: String::from_str("conch backend config cannot specify both unix_socket and api_url"),
            });
        },
        (Some(path), None) => ConchControlTransport::UnixSocket(String::from_str(path.as_str())),
        (None, Some(url)) => ConchControlTransport::ApiUrl(String::from_str(url.as_str())),
        (None, None) => {
            return Err(BackendBuildError::InvalidConfig { message: String::from_str("conch backend requires unix_socket or api_url") });
        },
    };
    let snapshot_empty = match &options.snapshot_id {
        Some(s) => s.as_str().is_empty(),
        None => true,
    };
    if options.image_name.is_none() && snapshot_empty {
        return Err(BackendBuildError::InvalidConfig {
            message: String::from_str("conch backend requires image_name when snapshot_id is absent"),
        });
    }
    let sandbox_id = match &options.sandbox_id {
        Some(id) => String::from_str(id.as_str()),
        None => {
            let mut id = match &options.sandbox_id_prefix {
                Some(p) => String::from_str(p.as_str()),
                None => String::from_str("xiaoo-conch"),
            };
            push_str(&mut id, "-");
            push_str(&mut id, id_suffix);
            id
        },
    };
    let workspace_root = path_or_invalid(options.workspace_root.as_str())?;
    let home_dir = match &options.home_dir {
        Some(h) => Some(path_or_invalid(h.as_str())?),
        None => None,
    };
    let temp_root = match &options.temp_root {
        Some(t) => path_or_invalid(t.as_str())?,
        None => String::from_str("/tmp"),
    };
    let namespace = match &options.namespace {
        Some(n) => String::from_str(n.as_str()),
        None => String::new(),
    };
    let mut backend_id = String::from_str("conch:");
    push_str(&mut backend_id, sandbox_id.as_str());
    let create_options = ConchCreateOptions {
        namespace: String::from_str(namespace.as_str()),
        sandbox_id,
        image_name: match &options.image_name {
            Some(i) => String::from_str(i.as_str()),
            None => String::new(),
        },
        snapshot_id: copy_opt(&options.snapshot_id),
        use_snapshot: match options.use_snapshot {
            Some(b) => b,
            None => false,
        },
        vmm_name: match &options.vmm_name {
            Some(v) => String::from_str(v.as_str()),
            None => String::from_str("cloud-hypervisor"),
        },
        vcpu_num: match options.vcpu_num {
            Some(n) => n,
            None => 1,
        },
        ram_mb: match options.ram_mb {
            Some(n) => n,
            None => 1024,
        },
    };
    proof {
        reveal_strlit("");
    }
    Ok(ValidatedConchConfig {
        backend_id,
        workspace_root,
        home_dir,
        temp_root,
        default_shell: copy_opt(&options.default_shell),
        transport,
        namespace,
        create_options,
    })
}

/// Validate conch options, generating a fresh sandbox id when none is set.
pub fn validate_conch_config(options: &ConchBackendOptions) -> (r: Result<ValidatedConchConfig, BackendBuildError>)
    ensures
        conch_config_fault(*options) matches Some(m) ==> (r matches Err(BackendBuildError::InvalidConfig { message }) && message@ == m),
        conch_config_fault(*options) is None ==> (r matches Ok(c) && exists|sfx: Seq<char>|
            crate::backend_base::is_uuid_simple(sfx) && #[trigger] conch_validated(*options, sfx, c)),
{
    let suffix = crate::backend_base::fresh_uuid_simple();
    let r = validate_conch_config_with(options, suffix.as_str());
    proof {
        if conch_config_fault(*options) is None {
            assert(conch_validated(*options, suffix@, r->Ok_0));
        }
    }
    r
}

} // verus!
