//! State of one E2B sandbox backend as plain values: its lifecycle, the
//! resolution of paths inside it, and the URLs, headers and replies of the
//! envd and platform APIs. The HTTP client itself lives with the caller.

use vstd::prelude::*;
use crate::backend_path::{is_absolute, normalize_backend_path, normalize_outcome, path_result_view, OperationError};
use crate::text::{chars_of, decimal, has_prefix, push_char, push_decimal, push_str, str_starts_with, string_of_range, trim, trim_chars};
use vstd::utf8::encode_utf8;
use vstd::string::StringSliceAdditionalSpecFns;
use crate::strmap::str_equal;
use base64::Engine;

verus! {

pub const E2B_PROVIDER_KIND: &'static str = "e2b";
pub const DEFAULT_DOMAIN: &'static str = "e2b.app";
pub const DEFAULT_API_BASE: &'static str = "https://api.e2b.app";
pub const DEFAULT_TEMPLATE_ID: &'static str = "base";
pub const DEFAULT_ENVD_PORT: u16 = 49983;
pub const DEFAULT_WORKSPACE_ROOT: &'static str = "/home/user/workspace";
pub const DEFAULT_HOME_DIR: &'static str = "/home/user";
pub const DEFAULT_TEMP_ROOT: &'static str = "/tmp";
pub const DEFAULT_SHELL: &'static str = "/bin/sh";
pub const DEFAULT_TIMEOUT_SECS: u64 = 3600;

#[derive(Debug, Clone, Copy, PartialEq, Eq, Structural)]
pub enum E2bLifecycle {
    Active,
    ShuttingDown,
    Closed,
}

/// One sandbox backend's configuration and lifecycle.
#[derive(Debug, Clone)]
pub struct E2bBackendState {
    pub backend_id: String,
    pub api_base: String,
    pub api_key: String,
    pub sandbox_id: String,
    pub sandbox_domain: String,
    pub envd_access_token: Option<String>,
    pub envd_port: u16,
    pub envd_scheme: String,
    pub workspace_root: String,
    pub home_dir: Option<String>,
    pub temp_root: String,
    pub default_shell: Option<String>,
    pub username: Option<String>,
    /// Whether file uploads use multipart bodies (older envd).
    pub envd_file_upload_multipart: bool,
    pub lifecycle: E2bLifecycle,
}

// ----------------------------------------------------------------------------
// Text helpers

/// `s` without leading `c` characters (`str::trim_start_matches`).
pub open spec fn strip_leading(s: Seq<char>, c: char) -> Seq<char>
    decreases s.len(),
{
    if s.len() > 0 && s[0] == c { strip_leading(s.drop_first(), c) } else { s }
}

/// `s` without trailing `c` characters (`str::trim_end_matches`).
pub open spec fn strip_trailing(s: Seq<char>, c: char) -> Seq<char>
    decreases s.len(),
{
    if s.len() > 0 && s.last() == c { strip_trailing(s.drop_last(), c) } else { s }
}

fn strip_leading_char(s: &str, c: char) -> (r: String)
    ensures
        r@ == strip_leading(s@, c),
{
    let v = chars_of(s);
    let n = v.len();
    let mut i: usize = 0;
    assert(v@.skip(0) =~= v@);
    while i < n && v[i] == c
        invariant
            n == v@.len(),
            i <= n,
            strip_leading(v@, c) == strip_leading(v@.skip(i as int), c),
        decreases n - i,
    {
        assert(v@.skip(i as int).drop_first() =~= v@.skip(i + 1));
        i = i + 1;
    }
    assert(v@.subrange(i as int, n as int) =~= v@.skip(i as int));
    string_of_range(&v, i, n)
}

fn strip_trailing_char(s: &str, c: char) -> (r: String)
    ensures
        r@ == strip_trailing(s@, c),
{
    let v = chars_of(s);
    let mut k: usize = v.len();
    assert(v@.take(k as int) =~= v@);
    while k > 0 && v[k - 1] == c
        invariant
            k <= v@.len(),
            strip_trailing(v@, c) == strip_trailing(v@.take(k as int), c),
        decreases k,
    {
        assert(v@.take(k as int).drop_last() =~= v@.take(k - 1));
        k = k - 1;
    }
    assert(v@.subrange(0, k as int) =~= v@.take(k as int));
    string_of_range(&v, 0, k)
}

/// `base` and `path` joined by one `/` (`base` without trailing and `path`
/// without leading slashes).
pub open spec fn join_url_spec(base: Seq<char>, path: Seq<char>) -> Seq<char> {
    strip_trailing(base, '/') + "/"@ + strip_leading(path, '/')
}

pub fn join_url(base: &str, path: &str) -> (s: String)
    ensures
        s@ == join_url_spec(base@, path@),
{
    let mut s = strip_trailing_char(base, '/');
    push_str(&mut s, "/");
    let tail = strip_leading_char(path, '/');
    push_str(&mut s, tail.as_str());
    s
}

/// The envd host of a sandbox: `<port>-<sandbox_id>.<domain>`.
pub open spec fn envd_host_spec(port: u16, sandbox_id: Seq<char>, domain: Seq<char>) -> Seq<char> {
    decimal(port as nat) + "-"@ + sandbox_id + "."@ + domain
}

pub fn envd_host(port: u16, sandbox_id: &str, domain: &str) -> (s: String)
    ensures
        s@ == envd_host_spec(port, sandbox_id@, domain@),
{
    let mut s = String::new();
    push_decimal(&mut s, port as u64);
    push_str(&mut s, "-");
    push_str(&mut s, sandbox_id);
    push_str(&mut s, ".");
    push_str(&mut s, domain);
    proof {
        assert(s@ =~= envd_host_spec(port, sandbox_id@, domain@));
    }
    s
}

/// `value` quoted for a POSIX shell: in single quotes, each `'` written as
/// `'\''`; the empty string is `''`.
pub open spec fn quote_body(s: Seq<char>) -> Seq<char>
    decreases s.len(),
{
    if s.len() == 0 {
        Seq::empty()
    } else {
        quote_body(s.drop_last()) + (if s.last() == '\'' { "'\\''"@ } else { seq![s.last()] })
    }
}

pub open spec fn shell_quote_spec(s: Seq<char>) -> Seq<char> {
    if s.len() == 0 { "''"@ } else { "'"@ + quote_body(s) + "'"@ }
}

pub fn shell_quote(value: &str) -> (s: String)
    ensures
        s@ == shell_quote_spec(value@),
{
    let v = chars_of(value);
    if v.len() == 0 {
        return String::from_str("''");
    }
    let mut s = String::from_str("'");
    let n = v.len();
    let mut i: usize = 0;
    assert(v@.take(0) =~= Seq::<char>::empty());
    while i < n
        invariant
            n == v@.len(),
            i <= n,
            s@ == "'"@ + quote_body(v@.take(i as int)),
        decreases n - i,
    {
        assert(v@.take(i + 1).drop_last() =~= v@.take(i as int));
        assert(v@.take(i + 1).last() == v@[i as int]);
        if v[i] == '\'' {
            push_str(&mut s, "'\\''");
        } else {
            push_char(&mut s, v[i]);
        }
        proof {
            assert(s@ =~= "'"@ + quote_body(v@.take(i + 1)));
        }
        i = i + 1;
    }
    assert(v@.take(n as int) =~= v@);
    push_str(&mut s, "'");
    s
}

// ----------------------------------------------------------------------------
// Paths

/// `p` joined to `base` as `Path::join` does: an absolute `p` replaces the
/// base; otherwise a `/` is put between them unless `base` is empty or
/// already ends with one.
pub open spec fn join_path(base: Seq<char>, p: Seq<char>) -> Seq<char> {
    if is_absolute(p) {
        p
    } else if base.len() == 0 || base.last() == '/' {
        base + p
    } else {
        base + "/"@ + p
    }
}

proof fn lemma_slash_prefix(s: Seq<char>)
    ensures
        has_prefix(s, "/"@) == is_absolute(s),
{
    reveal_strlit("/");
    if s.len() > 0 {
        assert(s.subrange(0, 1)[0] == s[0]);
        if s[0] == '/' {
            assert(s.subrange(0, 1) =~= "/"@);
        }
    }
}

fn join_path_exec(base: &str, p: &str) -> (s: String)
    ensures
        s@ == join_path(base@, p@),
{
    proof { lemma_slash_prefix(p@); }
    if str_starts_with(p, "/") {
        return String::from_str(p);
    }
    let b = chars_of(base);
    let mut s = String::from_str(base);
    if b.len() > 0 && b[b.len() - 1] != '/' {
        push_str(&mut s, "/");
    }
    push_str(&mut s, p);
    s
}

/// The path a user path stands for before normalisation: under the home
/// directory for `~` and `~/...` (none when no home directory is set), as
/// given when absolute, else under `base`.
pub open spec fn resolve_target(home: Option<Seq<char>>, raw: Seq<char>, base: Seq<char>) -> Option<Seq<char>> {
    if raw == "~"@ || has_prefix(raw, "~/"@) {
        match home {
            None => None,
            Some(h) => Some(join_path(h, if has_prefix(raw, "~/"@) { raw.skip(2) } else { Seq::empty() })),
        }
    } else if is_absolute(raw) {
        Some(raw)
    } else {
        Some(join_path(base, raw))
    }
}

pub open spec fn opt_view(o: Option<String>) -> Option<Seq<char>> {
    match o {
        Some(s) => Some(s@),
        None => None,
    }
}

impl E2bBackendState {
    /// Resolve a user path to a normalised absolute path in the sandbox.
    pub fn resolve_backend_path(&self, raw_path: &str, base: &str) -> (r: Result<String, OperationError>)
        ensures
            resolve_target(opt_view(self.home_dir), raw_path@, base@) is None ==> (r matches Err(OperationError::Unsupported { message })
                && message@ == "home_dir is not configured"@),
            resolve_target(opt_view(self.home_dir), raw_path@, base@) matches Some(t) ==> ((r is Ok || r matches Err(OperationError::InvalidPath { .. }))
                && path_result_view(r) == normalize_outcome(t)),
    {
        let tilde_slash = str_starts_with(raw_path, "~/");
        if str_equal(raw_path, "~") || tilde_slash {
            let home = match &self.home_dir {
                Some(h) => h,
                None => {
                    return Err(OperationError::Unsupported { message: String::from_str("home_dir is not configured") });
                },
            };
            let v = chars_of(raw_path);
            let suffix = if tilde_slash {
                proof { reveal_strlit("~/"); }
                string_of_range(&v, 2, v.len())
            } else {
                String::new()
            };
            proof {
                reveal_strlit("~/");
                if tilde_slash {
                    assert(suffix@ =~= raw_path@.skip(2));
                }
            }
            let target = join_path_exec(home.as_str(), suffix.as_str());
            return normalize_backend_path(target.as_str());
        }
        proof { lemma_slash_prefix(raw_path@); }
        if str_starts_with(raw_path, "/") {
            return normalize_backend_path(raw_path);
        }
        let target = join_path_exec(base, raw_path);
        normalize_backend_path(target.as_str())
    }

    /// `<scheme>://<envd host>/<path without leading slashes>`.
    pub fn envd_url(&self, path: &str) -> (s: String)
        ensures
            s@ == self.envd_scheme@ + "://"@ + envd_host_spec(self.envd_port, self.sandbox_id@, self.sandbox_domain@)
                + "/"@ + strip_leading(path@, '/'),
    {
        let mut s = String::from_str(self.envd_scheme.as_str());
        push_str(&mut s, "://");
        let host = envd_host(self.envd_port, self.sandbox_id.as_str(), self.sandbox_domain.as_str());
        push_str(&mut s, host.as_str());
        push_str(&mut s, "/");
        let tail = strip_leading_char(path, '/');
        push_str(&mut s, tail.as_str());
        s
    }

    /// A URL of the platform API.
    pub fn platform_url(&self, path: &str) -> (s: String)
        ensures
            s@ == join_url_spec(self.api_base@, path@),
    {
        join_url(self.api_base.as_str(), path)
    }
}


// ----------------------------------------------------------------------------
// Lifecycle

/// The lifecycle after a shutdown was begun.
pub open spec fn after_begin(l: E2bLifecycle) -> E2bLifecycle {
    if l == E2bLifecycle::Active { E2bLifecycle::ShuttingDown } else { l }
}

/// The lifecycle after a begun shutdown was given up.
pub open spec fn after_abort(l: E2bLifecycle) -> E2bLifecycle {
    if l == E2bLifecycle::ShuttingDown { E2bLifecycle::Active } else { l }
}

impl E2bBackendState {
    /// `Ok` while the backend is active; otherwise a transport error saying
    /// why it cannot be used.
    pub fn ensure_active(&self) -> (r: Result<(), OperationError>)
        ensures
            r is Ok <==> self.lifecycle == E2bLifecycle::Active,
            self.lifecycle == E2bLifecycle::ShuttingDown ==> (r matches Err(OperationError::Transport { message })
                && message@ == "e2b backend "@ + self.backend_id@ + " is shutting down"@),
            self.lifecycle == E2bLifecycle::Closed ==> (r matches Err(OperationError::Transport { message })
                && message@ == "e2b backend "@ + self.backend_id@ + " is already closed"@),
    {
        match self.lifecycle {
            E2bLifecycle::Active => Ok(()),
            E2bLifecycle::ShuttingDown => {
                let mut message = String::from_str("e2b backend ");
                push_str(&mut message, self.backend_id.as_str());
                push_str(&mut message, " is shutting down");
                Err(OperationError::Transport { message })
            },
            E2bLifecycle::Closed => {
                let mut message = String::from_str("e2b backend ");
                push_str(&mut message, self.backend_id.as_str());
                push_str(&mut message, " is already closed");
                Err(OperationError::Transport { message })
            },
        }
    }

    /// Move an active backend to shutting down; `false` (and no change)
    /// when it is not active.
    pub fn begin_shutdown(&mut self) -> (started: bool)
        ensures
            started == (old(self).lifecycle == E2bLifecycle::Active),
            *final(self) == (E2bBackendState { lifecycle: after_begin(old(self).lifecycle), ..*old(self) }),
    {
        if self.lifecycle == E2bLifecycle::Active {
            self.lifecycle = E2bLifecycle::ShuttingDown;
            true
        } else {
            false
        }
    }

    pub fn finish_shutdown(&mut self)
        ensures
            *final(self) == (E2bBackendState { lifecycle: E2bLifecycle::Closed, ..*old(self) }),
    {
        self.lifecycle = E2bLifecycle::Closed;
    }

    /// Give up a begun shutdown: a backend shutting down is active again.
    pub fn abort_shutdown(&mut self)
        ensures
            *final(self) == (E2bBackendState { lifecycle: after_abort(old(self).lifecycle), ..*old(self) }),
    {
        if self.lifecycle == E2bLifecycle::ShuttingDown {
            self.lifecycle = E2bLifecycle::Active;
        }
    }

    /// Conclude a shutdown begun by `begin_shutdown` with the outcome of
    /// deleting the sandbox: closed on success, active again (and the error
    /// passed on) on failure.
    pub fn conclude_shutdown(&mut self, deleted: Result<(), OperationError>) -> (r: Result<(), OperationError>)
        ensures
            r == deleted,
            deleted is Ok ==> *final(self) == (E2bBackendState { lifecycle: E2bLifecycle::Closed, ..*old(self) }),
            deleted is Err ==> *final(self) == (E2bBackendState { lifecycle: after_abort(old(self).lifecycle), ..*old(self) }),
    {
        if deleted.is_ok() {
            self.finish_shutdown();
        } else {
            self.abort_shutdown();
        }
        deleted
    }
}

/// A shutdown that was begun and given up leaves an active backend active,
/// and a second `begin_shutdown` while one is under way starts nothing.
pub proof fn law_aborted_shutdown_restores_active(l: E2bLifecycle)
    ensures
        l == E2bLifecycle::Active ==> after_abort(after_begin(l)) == E2bLifecycle::Active,
        after_begin(after_begin(l)) == after_begin(l),
        after_begin(l) != E2bLifecycle::Active,
{
}

// ----------------------------------------------------------------------------
// Requests and replies

/// What `base64::engine::general_purpose::STANDARD.encode` gives for `input`.
pub uninterp spec fn base64_standard_text(input: Seq<u8>) -> Seq<char>;

/// `base64::engine::general_purpose::STANDARD.encode`, named by
/// `base64_standard_text`; nothing more is claimed of its text.
#[verifier::external_body]
fn base64_standard_encode(input: &[u8]) -> (s: String)
    ensures
        s@ == base64_standard_text(input@),
{
    base64::engine::general_purpose::STANDARD.encode(input)
}

/// The authentication headers of an envd request, where `encoded` is the
/// base64 text of the user's credentials: the access token when it is not
/// blank, and HTTP basic authentication when a user name is set.
pub open spec fn envd_headers_spec_with(token: Option<Seq<char>>, username: Option<Seq<char>>, encoded: Seq<char>) -> Seq<(Seq<char>, Seq<char>)> {
    let t = match token {
        Some(t) => if trim(t).len() > 0 { seq![("X-Access-Token"@, t)] } else { Seq::empty() },
        None => Seq::empty(),
    };
    let u = match username {
        Some(u) => if u.len() > 0 { seq![("Authorization"@, "Basic "@ + encoded)] } else { Seq::empty() },
        None => Seq::empty(),
    };
    t + u
}

/// The base64 text of a user's basic credentials: `<user>:`, empty password.
pub open spec fn basic_credentials_text(username: Option<Seq<char>>) -> Seq<char> {
    match username {
        Some(u) => base64_standard_text(encode_utf8(u + ":"@)),
        None => Seq::empty(),
    }
}

/// The authentication headers of an envd request: the access token when it
/// is not blank, and HTTP basic authentication of the user (empty password)
/// when a user name is set.
pub open spec fn envd_headers_spec(token: Option<Seq<char>>, username: Option<Seq<char>>) -> Seq<(Seq<char>, Seq<char>)> {
    envd_headers_spec_with(token, username, basic_credentials_text(username))
}

pub open spec fn headers_view(v: Seq<(String, String)>) -> Seq<(Seq<char>, Seq<char>)> {
    v.map_values(|h: (String, String)| (h.0@, h.1@))
}

impl E2bBackendState {
    /// The headers every envd request carries.
    pub fn envd_headers(&self) -> (h: Vec<(String, String)>)
        ensures
            headers_view(h@) == envd_headers_spec(opt_view(self.envd_access_token), opt_view(self.username)),
    {
        let encoded = match &self.username {
            Some(name) => {
                let mut credentials = String::from_str(name.as_str());
                push_str(&mut credentials, ":");
                base64_standard_encode(credentials.as_str().as_bytes())
            },
            None => String::new(),
        };
        self.envd_headers_with(encoded.as_str())
    }

    /// The headers every envd request carries, given the base64 text
    /// `encoded` of the user's credentials.
    pub fn envd_headers_with(&self, encoded: &str) -> (h: Vec<(String, String)>)
        ensures
            headers_view(h@) == envd_headers_spec_with(opt_view(self.envd_access_token), opt_view(self.username), encoded@),
    {
        let mut h: Vec<(String, String)> = Vec::new();
        if let Some(token) = &self.envd_access_token {
            let chars = chars_of(token.as_str());
            let trimmed = trim_chars(&chars);
            if trimmed.len() > 0 {
                h.push((String::from_str("X-Access-Token"), String::from_str(token.as_str())));
            }
        }
        if let Some(name) = &self.username {
            if name.as_str().is_empty() == false {
                let mut value = String::from_str("Basic ");
                push_str(&mut value, encoded);
                h.push((String::from_str("Authorization"), value));
                proof {
                    assert(name@.len() > 0);
                }
            } else {
                proof {
                    assert(name@.len() == 0);
                }
            }
        }
        proof {
            assert(headers_view(h@) =~= envd_headers_spec_with(opt_view(self.envd_access_token), opt_view(self.username), encoded@));
        }
        h
    }
}

/// Whether the reply to deleting a sandbox means it is gone: 204, or 404
/// for a sandbox that no longer exists.
pub fn delete_sandbox_succeeded(status: u16) -> (ok: bool)
    ensures
        ok == (status == 204 || status == 404),
{
    status == 204 || status == 404
}

/// The error for a failed HTTP reply: not found for 404, permission denied
/// for 401 and 403 (both carrying the reply's message), otherwise a transport
/// error `<context> failed with HTTP <status line>: <message>`.
pub fn http_error(context: &str, status: u16, status_line: &str, message: String) -> (e: OperationError)
    ensures
        status == 404 ==> (e matches OperationError::NotFound { path } && path@ == message@),
        (status == 401 || status == 403) ==> (e matches OperationError::PermissionDenied { path } && path@ == message@),
        (status != 404 && status != 401 && status != 403) ==> (e matches OperationError::Transport { message: m }
            && m@ == context@ + " failed with HTTP "@ + status_line@ + ": "@ + message@),
{
    if status == 404 {
        OperationError::NotFound { path: message }
    } else if status == 401 || status == 403 {
        OperationError::PermissionDenied { path: message }
    } else {
        let mut m = String::from_str(context);
        push_str(&mut m, " failed with HTTP ");
        push_str(&mut m, status_line);
        push_str(&mut m, ": ");
        push_str(&mut m, message.as_str());
        OperationError::Transport { message: m }
    }
}

} // verus!
