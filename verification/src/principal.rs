//! Daemon-internal principal ids (cron, hooks, channel ingress).
//!
//! Daemon principals do not take leases; they are recognised by a fixed
//! prefix so that the holder checks can let them through explicitly.

use vstd::prelude::*;
use crate::text::{has_prefix, push_str, str_starts_with};

verus! {

/// Prefix of every daemon-internal principal id.
pub const DAEMON_PRINCIPAL_PREFIX: &'static str = "daemon:";

pub open spec fn daemon_prefix() -> Seq<char> {
    "daemon:"@
}

/// The daemon principal id with the given suffix.
pub open spec fn daemon_principal_spec(suffix: Seq<char>) -> Seq<char> {
    daemon_prefix() + suffix
}

/// Whether `client_id` is a daemon-internal principal.
pub fn is_daemon_principal(client_id: &str) -> (r: bool)
    ensures
        r == has_prefix(client_id@, daemon_prefix()),
{
    str_starts_with(client_id, DAEMON_PRINCIPAL_PREFIX)
}

fn daemon_principal(suffix: &str) -> (s: String)
    ensures
        s@ == daemon_principal_spec(suffix@),
{
    let mut s = String::from_str(DAEMON_PRINCIPAL_PREFIX);
    push_str(&mut s, suffix);
    s
}

/// Principal id of the cron scheduler's turns: `daemon:cron`.
pub fn daemon_cron_principal() -> (s: String)
    ensures
        s@ == daemon_principal_spec("cron"@),
{
    daemon_principal("cron")
}

/// Principal id of a hook action's turn: `daemon:hook:<hook_id>`.
pub fn daemon_hook_principal(hook_id: &str) -> (s: String)
    ensures
        s@ == daemon_principal_spec("hook:"@ + hook_id@),
{
    let mut suffix = String::from_str("hook:");
    push_str(&mut suffix, hook_id);
    daemon_principal(suffix.as_str())
}

/// Principal id of a channel-ingress turn: `daemon:channel:<channel_id>`.
pub fn daemon_channel_principal(channel_id: &str) -> (s: String)
    ensures
        s@ == daemon_principal_spec("channel:"@ + channel_id@),
{
    let mut suffix = String::from_str("channel:");
    push_str(&mut suffix, channel_id);
    daemon_principal(suffix.as_str())
}

/// Every id built by the daemon principal constructors is recognised as a
/// daemon principal.
pub proof fn law_daemon_principals_are_recognised(suffix: Seq<char>)
    ensures
        has_prefix(daemon_principal_spec(suffix), daemon_prefix()),
{
    assert(daemon_principal_spec(suffix).subrange(0, daemon_prefix().len() as int) =~= daemon_prefix());
}

} // verus!
