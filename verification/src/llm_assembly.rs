//! Assembling the LLM provider of a runtime: where its API key comes from,
//! and the context window it is given. Errors of the session runtime layer
//! live here too.

use vstd::prelude::*;
use crate::text::{push_str, trim, chars_of, trim_chars};

verus! {

/// Why assembling an LLM provider failed.
#[derive(Debug)]
pub enum LlmAssemblyError {
    Resolve(String),
    Create(String),
    MissingApiKeyEnv(String),
    InvalidApiKeyEnv(String),
}

pub open spec fn llm_error_text(e: LlmAssemblyError) -> Seq<char> {
    match e {
        LlmAssemblyError::Resolve(m) => "failed to resolve llm provider config: "@ + m@,
        LlmAssemblyError::Create(m) => "failed to create llm provider: "@ + m@,
        LlmAssemblyError::MissingApiKeyEnv(n) => "missing required API key environment variable: "@ + n@,
        LlmAssemblyError::InvalidApiKeyEnv(n) => "API key environment variable is not valid unicode: "@ + n@,
    }
}

impl LlmAssemblyError {
    pub fn message(&self) -> (s: String)
        ensures
            s@ == llm_error_text(*self),
    {
        let (prefix, detail) = match self {
            LlmAssemblyError::Resolve(m) => ("failed to resolve llm provider config: ", m.as_str()),
            LlmAssemblyError::Create(m) => ("failed to create llm provider: ", m.as_str()),
            LlmAssemblyError::MissingApiKeyEnv(n) => ("missing required API key environment variable: ", n.as_str()),
            LlmAssemblyError::InvalidApiKeyEnv(n) => ("API key environment variable is not valid unicode: ", n.as_str()),
        };
        let mut s = String::from_str(prefix);
        push_str(&mut s, detail);
        s
    }
}

/// Where an API key is to be read from.
#[derive(Debug)]
pub enum ApiKeySource {
    /// The key is given directly.
    Direct(String),
    /// Read the named variable; a missing value is an error when `required`.
    Env { name: String, required: bool },
    /// No key.
    NoKey,
}

/// The source of the API key: the given key, else the configured variable
/// (required), else the provider's default variable (optional).
pub fn api_key_source(api_key: Option<&str>, api_key_env: Option<&str>, profile_default_env: Option<&str>) -> (s: ApiKeySource)
    ensures
        api_key matches Some(k) ==> (s matches ApiKeySource::Direct(d) && d@ == k@),
        api_key is None ==> (api_key_env matches Some(n) ==> (s matches ApiKeySource::Env { name, required } && name@ == n@ && required)),
        api_key is None && api_key_env is None ==> (profile_default_env matches Some(n) ==> (s matches ApiKeySource::Env { name, required }
            && name@ == n@ && !required)),
        api_key is None && api_key_env is None && profile_default_env is None ==> s is NoKey,
{
    if let Some(k) = api_key {
        return ApiKeySource::Direct(String::from_str(k));
    }
    if let Some(n) = api_key_env {
        return ApiKeySource::Env { name: String::from_str(n), required: true };
    }
    if let Some(n) = profile_default_env {
        return ApiKeySource::Env { name: String::from_str(n), required: false };
    }
    ApiKeySource::NoKey
}

/// What reading an environment variable gave.
#[derive(Debug)]
pub enum EnvValue {
    Present(String),
    NotPresent,
    NotUnicode,
}

fn non_blank(s: &str) -> (r: bool)
    ensures
        r == (trim(s@).len() > 0),
{
    let chars = chars_of(s);
    trim_chars(&chars).len() > 0
}

/// The key read from variable `env_name`: the decrypted stored key when not
/// blank, else the variable's value when not blank; otherwise an error when
/// the variable is required (missing) or not unicode, or no key.
pub fn api_key_from_env(env_name: &str, required: bool, decrypted: Option<String>, env: EnvValue) -> (r: Result<Option<String>, LlmAssemblyError>)
    ensures
        decrypted matches Some(d) && trim(d@).len() > 0 ==> r == Ok::<Option<String>, LlmAssemblyError>(Some(decrypted.unwrap())),
        !(decrypted matches Some(d) && trim(d@).len() > 0) ==> match env {
            EnvValue::Present(v) => if trim(v@).len() > 0 {
                r == Ok::<Option<String>, LlmAssemblyError>(Some(v))
            } else if required {
                r matches Err(LlmAssemblyError::MissingApiKeyEnv(n)) && n@ == env_name@
            } else {
                r == Ok::<Option<String>, LlmAssemblyError>(None)
            },
            EnvValue::NotPresent => if required {
                r matches Err(LlmAssemblyError::MissingApiKeyEnv(n)) && n@ == env_name@
            } else {
                r == Ok::<Option<String>, LlmAssemblyError>(None)
            },
            EnvValue::NotUnicode => r matches Err(LlmAssemblyError::InvalidApiKeyEnv(n)) && n@ == env_name@,
        },
{
    if let Some(d) = &decrypted {
        if non_blank(d.as_str()) {
            return Ok(decrypted);
        }
    }
    match env {
        EnvValue::Present(v) => {
            if non_blank(v.as_str()) {
                Ok(Some(v))
            } else if required {
                Err(LlmAssemblyError::MissingApiKeyEnv(String::from_str(env_name)))
            } else {
                Ok(None)
            }
        },
        EnvValue::NotPresent => {
            if required {
                Err(LlmAssemblyError::MissingApiKeyEnv(String::from_str(env_name)))
            } else {
                Ok(None)
            }
        },
        EnvValue::NotUnicode => Err(LlmAssemblyError::InvalidApiKeyEnv(String::from_str(env_name))),
    }
}

/// The context window of a model: the configured one when positive, else
/// the probed one when positive, else the provider's static value (at
/// least one); as a `u32`, saturating.
pub open spec fn context_window_spec(configured: Option<u32>, probed: Option<u64>, static_fallback: u64) -> u32 {
    let w: int = match configured {
        Some(c) if c > 0 => c as int,
        _ => match probed {
            Some(p) if p > 0 => p as int,
            _ => if static_fallback > 1 { static_fallback as int } else { 1 },
        },
    };
    if w > u32::MAX { u32::MAX } else { w as u32 }
}

pub fn effective_context_window(configured: Option<u32>, probed: Option<u64>, static_fallback: u64) -> (w: u32)
    ensures
        w == context_window_spec(configured, probed, static_fallback),
{
    if let Some(c) = configured {
        if c > 0 {
            return c;
        }
    }
    let w: u64 = match probed {
        Some(p) if p > 0 => p,
        _ => if static_fallback > 1 { static_fallback } else { 1 },
    };
    if w > 4294967295u64 { 4294967295u32 } else { w as u32 }
}

/// Why resolving a session's runtime failed.
#[derive(Debug)]
pub enum SessionRuntimeResolveError {
    ResolveFailed { message: String },
    InvalidBootstrap { message: String },
    BootstrapConflict { message: String },
    BootstrapTooLarge { message: String },
}

pub open spec fn resolve_error_text(e: SessionRuntimeResolveError) -> Seq<char> {
    match e {
        SessionRuntimeResolveError::ResolveFailed { message } => "runtime resolution failed: "@ + message@,
        SessionRuntimeResolveError::InvalidBootstrap { message } => "invalid runtime bootstrap request: "@ + message@,
        SessionRuntimeResolveError::BootstrapConflict { message } => "runtime bootstrap binding conflict: "@ + message@,
        SessionRuntimeResolveError::BootstrapTooLarge { message } => "runtime bootstrap payload exceeds capacity: "@ + message@,
    }
}

impl SessionRuntimeResolveError {
    pub fn message(&self) -> (s: String)
        ensures
            s@ == resolve_error_text(*self),
    {
        let (prefix, detail) = match self {
            SessionRuntimeResolveError::ResolveFailed { message } => ("runtime resolution failed: ", message.as_str()),
            SessionRuntimeResolveError::InvalidBootstrap { message } => ("invalid runtime bootstrap request: ", message.as_str()),
            SessionRuntimeResolveError::BootstrapConflict { message } => ("runtime bootstrap binding conflict: ", message.as_str()),
            SessionRuntimeResolveError::BootstrapTooLarge { message } => ("runtime bootstrap payload exceeds capacity: ", message.as_str()),
        };
        let mut s = String::from_str(prefix);
        push_str(&mut s, detail);
        s
    }
}

/// Why a session store operation failed.
#[derive(Debug)]
pub enum SessionStoreError {
    NotFound { session_id: String },
}

impl SessionStoreError {
    pub fn message(&self) -> (s: String)
        ensures
            ({ let SessionStoreError::NotFound { session_id } = *self; s@ == "session not found: "@ + session_id@ }),
    {
        let SessionStoreError::NotFound { session_id } = self;
        let mut s = String::from_str("session not found: ");
        push_str(&mut s, session_id.as_str());
        s
    }
}

/// Entry point that wires a session service from its parts.
#[derive(Debug, Clone, Copy)]
pub struct AppBootstrap;

/// Builds the runtimes of sessions.
#[derive(Debug, Clone, Copy)]
pub struct AppRuntimeFactory;

} // verus!
