//! Classification of failed E2B requests.

use vstd::prelude::*;
use crate::text::{chars_of, push_decimal, push_str};

verus! {

#[derive(Debug, Clone, Copy, PartialEq, Eq, Structural)]
pub enum E2bFailureKind {
    Dns,
    Connect,
    Tls,
    Timeout,
    HttpStatus,
    BodyInterrupted,
    Protocol,
    Unknown,
}

impl E2bFailureKind {
    /// The label used in logs.
    pub fn as_str(self) -> (s: &'static str)
        ensures
            s@ == kind_label(self),
    {
        match self {
            E2bFailureKind::Dns => "dns",
            E2bFailureKind::Connect => "connect",
            E2bFailureKind::Tls => "tls",
            E2bFailureKind::Timeout => "timeout",
            E2bFailureKind::HttpStatus => "http_status",
            E2bFailureKind::BodyInterrupted => "body_interrupted",
            E2bFailureKind::Protocol => "protocol",
            E2bFailureKind::Unknown => "unknown",
        }
    }
}

pub open spec fn kind_label(k: E2bFailureKind) -> Seq<char> {
    match k {
        E2bFailureKind::Dns => "dns"@,
        E2bFailureKind::Connect => "connect"@,
        E2bFailureKind::Tls => "tls"@,
        E2bFailureKind::Timeout => "timeout"@,
        E2bFailureKind::HttpStatus => "http_status"@,
        E2bFailureKind::BodyInterrupted => "body_interrupted"@,
        E2bFailureKind::Protocol => "protocol"@,
        E2bFailureKind::Unknown => "unknown"@,
    }
}

/// A failed E2B request, with whether retrying may help.
#[derive(Debug, Clone)]
pub struct E2bFailure {
    pub kind: E2bFailureKind,
    pub message: String,
    pub retryable: bool,
    pub details: String,
}

/// Whether an HTTP status is worth retrying: 429 and every 5xx.
pub open spec fn status_is_retryable(status: u16) -> bool {
    status == 429 || status == 502 || status == 503 || status == 504 || (500 <= status <= 599)
}

/// The kind of a transport failure, from the error's own flags and the
/// lower-cased text of its cause chain (`dns`/`tls` words are searched there).
pub open spec fn transport_kind(is_timeout: bool, mentions_dns: bool, mentions_tls: bool, is_body_or_decode: bool, is_connect: bool) -> E2bFailureKind {
    if is_timeout {
        E2bFailureKind::Timeout
    } else if mentions_dns {
        E2bFailureKind::Dns
    } else if mentions_tls {
        E2bFailureKind::Tls
    } else if is_body_or_decode {
        E2bFailureKind::BodyInterrupted
    } else if is_connect {
        E2bFailureKind::Connect
    } else {
        E2bFailureKind::Unknown
    }
}

impl E2bFailure {
    /// A non-retryable protocol failure.
    pub fn protocol(message: String) -> (f: Self)
        ensures
            f.kind == E2bFailureKind::Protocol,
            !f.retryable,
            f.message == message,
            f.details@ == Seq::<char>::empty(),
    {
        E2bFailure { kind: E2bFailureKind::Protocol, message, retryable: false, details: String::new() }
    }

    /// A retryable protocol failure.
    pub fn retryable_protocol(message: String) -> (f: Self)
        ensures
            f.kind == E2bFailureKind::Protocol,
            f.retryable,
            f.message == message,
            f.details@ == Seq::<char>::empty(),
    {
        E2bFailure { kind: E2bFailureKind::Protocol, message, retryable: true, details: String::new() }
    }

    /// A retryable interruption of a response body.
    pub fn body_interrupted(message: String) -> (f: Self)
        ensures
            f.kind == E2bFailureKind::BodyInterrupted,
            f.retryable,
            f.message == message,
            f.details@ == Seq::<char>::empty(),
    {
        E2bFailure { kind: E2bFailureKind::BodyInterrupted, message, retryable: true, details: String::new() }
    }

    /// A failure for an unsuccessful HTTP status: `"<context> failed with HTTP
    /// <status line>: <message>"`, retryable for 429 and every 5xx.
    pub fn from_status(context: &str, status: u16, status_text: &str, message: &str) -> (f: Self)
        ensures
            f.kind == E2bFailureKind::HttpStatus,
            f.retryable == status_is_retryable(status),
            f.message@ == context@ + " failed with HTTP "@ + crate::text::decimal(status as nat) + " "@
                + status_text@ + ": "@ + message@,
    {
        let mut text = String::from_str(context);
        push_str(&mut text, " failed with HTTP ");
        push_decimal(&mut text, status as u64);
        push_str(&mut text, " ");
        push_str(&mut text, status_text);
        push_str(&mut text, ": ");
        push_str(&mut text, message);
        let retryable = status == 429 || status == 502 || status == 503 || status == 504 || (500 <= status && status <= 599);
        E2bFailure { kind: E2bFailureKind::HttpStatus, message: text, retryable, details: String::new() }
    }

    /// A failure of the transport: classified by the error's flags and the
    /// cause chain (`"dns"`, `"failed to lookup address"`, `"name or service
    /// not known"` mean DNS; `"tls"`, `"certificate"`, `"handshake"` mean
    /// TLS); every kind but `HttpStatus` and `Protocol` is retryable.
    pub fn from_transport(
        message: String,
        chain: String,
        is_timeout: bool,
        is_body_or_decode: bool,
        is_connect: bool,
    ) -> (f: Self)
        ensures
            f.kind == transport_kind(
                is_timeout,
                mentions_any(ascii_lower(chain@), seq!["dns"@, "failed to lookup address"@, "name or service not known"@]),
                mentions_any(ascii_lower(chain@), seq!["tls"@, "certificate"@, "handshake"@]),
                is_body_or_decode,
                is_connect,
            ),
            f.retryable,
            f.message == message,
            f.details == chain,
    {
        let lower = to_ascii_lowercase(chain.as_str());
        let dns = contains_str(&lower, "dns") || contains_str(&lower, "failed to lookup address")
            || contains_str(&lower, "name or service not known");
        let tls = contains_str(&lower, "tls") || contains_str(&lower, "certificate") || contains_str(&lower, "handshake");
        proof {
            assert(mentions_any(ascii_lower(chain@), seq!["dns"@, "failed to lookup address"@, "name or service not known"@])
                == (contains(ascii_lower(chain@), "dns"@) || contains(ascii_lower(chain@), "failed to lookup address"@)
                    || contains(ascii_lower(chain@), "name or service not known"@)));
            assert(mentions_any(ascii_lower(chain@), seq!["tls"@, "certificate"@, "handshake"@])
                == (contains(ascii_lower(chain@), "tls"@) || contains(ascii_lower(chain@), "certificate"@)
                    || contains(ascii_lower(chain@), "handshake"@)));
        }
        let kind = if is_timeout {
            E2bFailureKind::Timeout
        } else if dns {
            E2bFailureKind::Dns
        } else if tls {
            E2bFailureKind::Tls
        } else if is_body_or_decode {
            E2bFailureKind::BodyInterrupted
        } else if is_connect {
            E2bFailureKind::Connect
        } else {
            E2bFailureKind::Unknown
        };
        E2bFailure { kind, message, retryable: true, details: chain }
    }
}

/// `c` with ASCII upper-case letters lowered.
pub open spec fn lower_char(c: char) -> char {
    if 'A' <= c && c <= 'Z' { ((c as u32) + 32) as char } else { c }
}

pub open spec fn ascii_lower(s: Seq<char>) -> Seq<char> {
    s.map_values(|c: char| lower_char(c))
}

/// Whether `p` occurs in `s`.
pub open spec fn contains(s: Seq<char>, p: Seq<char>) -> bool {
    exists|i: int| 0 <= i && i + p.len() <= s.len() && #[trigger] s.subrange(i, i + p.len()) == p
}

/// Whether one of `ps` occurs in `s`.
pub open spec fn mentions_any(s: Seq<char>, ps: Seq<Seq<char>>) -> bool {
    exists|j: int| 0 <= j < ps.len() && contains(s, #[trigger] ps[j])
}

fn lower(c: char) -> (r: char)
    ensures
        r == lower_char(c),
{
    if 'A' <= c && c <= 'Z' {
        let code: u8 = (c as u8) + 32;
        code as char
    } else {
        c
    }
}

/// `s` with ASCII letters lowered, as characters.
pub fn to_ascii_lowercase(s: &str) -> (r: Vec<char>)
    ensures
        r@ == ascii_lower(s@),
{
    let v = chars_of(s);
    let mut out: Vec<char> = Vec::new();
    let n = v.len();
    let mut i: usize = 0;
    while i < n
        invariant
            n == v@.len(),
            i <= n,
            out@ == ascii_lower(v@.take(i as int)),
        decreases n - i,
    {
        out.push(lower(v[i]));
        assert(ascii_lower(v@.take(i + 1)) =~= ascii_lower(v@.take(i as int)).push(lower_char(v@[i as int])));
        i = i + 1;
    }
    assert(v@.take(n as int) =~= v@);
    out
}

/// Whether `p` occurs in `v`.
pub fn contains_str(v: &Vec<char>, p: &str) -> (r: bool)
    ensures
        r == contains(v@, p@),
{
    let q = chars_of(p);
    if q.len() > v.len() {
        return false;
    }
    let last = v.len() - q.len();
    let mut i: usize = 0;
    loop
        invariant
            i <= last,
            last == v@.len() - q@.len(),
            q@ == p@,
            forall|j: int| 0 <= j < i ==> #[trigger] v@.subrange(j, j + q@.len()) != q@,
        decreases last - i,
    {
        if crate::text::matches_at(v, i, &q) {
            return true;
        }
        if i == last {
            return false;
        }
        i = i + 1;
    }
}

} // verus!
