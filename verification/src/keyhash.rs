//! One-way derivation of stored key identifiers (PBKDF2-HMAC-SHA256, then
//! URL-safe base64 without padding).

use vstd::prelude::*;
use base64::Engine;
use vstd::string::StringSliceAdditionalSpecFns;

verus! {

/// Iterations of PBKDF2-HMAC-SHA256 used for the stored key identifier.
pub const KEY_IDENTIFIER_PBKDF2_ITERATIONS: u32 = 10_000;

/// Derived output length in bytes.
pub const KEY_IDENTIFIER_DERIVED_LEN: usize = 32;

/// The bytes that `pbkdf2::pbkdf2_hmac::<sha2::Sha256>` derives from
/// `password`, `salt` and `rounds` into an output of `len` bytes.
pub uninterp spec fn pbkdf2_hmac_sha256_output(password: Seq<u8>, salt: Seq<u8>, rounds: u32, len: nat) -> Seq<u8>;

/// The text that `base64::engine::general_purpose::URL_SAFE_NO_PAD.encode`
/// gives for `bytes`.
pub uninterp spec fn base64_url_no_pad_text(bytes: Seq<u8>) -> Seq<char>;

/// `pbkdf2::pbkdf2_hmac::<sha2::Sha256>` into a fresh buffer of `len` bytes.
/// Claimed: the buffer keeps its length and holds the named derivation of
/// the arguments (the function is deterministic and cannot fail for HMAC).
#[verifier::external_body]
fn pbkdf2_hmac_sha256(password: &[u8], salt: &[u8], rounds: u32, len: usize) -> (out: Vec<u8>)
    ensures
        out@.len() == len,
        out@ == pbkdf2_hmac_sha256_output(password@, salt@, rounds, len as nat),
{
    let mut out = vec![0u8; len];
    pbkdf2::pbkdf2_hmac::<sha2::Sha256>(password, salt, rounds, &mut out);
    out
}

/// `base64::engine::general_purpose::URL_SAFE_NO_PAD.encode`. Claimed: the
/// result is the named encoding of `bytes`.
#[verifier::external_body]
fn base64_url_no_pad_encode(bytes: &[u8]) -> (s: String)
    ensures
        s@ == base64_url_no_pad_text(bytes@),
{
    base64::engine::general_purpose::URL_SAFE_NO_PAD.encode(bytes)
}

/// The salt of the derivation.
pub open spec fn key_identifier_salt() -> Seq<u8> {
    "xiaoo-sandbox-key-v1".spec_bytes()
}

/// The stored form of a key identifier.
pub open spec fn hashed_key_identifier(key_identifier: Seq<u8>) -> Seq<char> {
    base64_url_no_pad_text(pbkdf2_hmac_sha256_output(
        key_identifier,
        key_identifier_salt(),
        KEY_IDENTIFIER_PBKDF2_ITERATIONS,
        KEY_IDENTIFIER_DERIVED_LEN as nat,
    ))
}

/// One-way hash of a key identifier (which may be a provider API key), so
/// that it can be persisted and compared by string equality.
pub fn hash_key_identifier(key_identifier: &str) -> (s: String)
    ensures
        s@ == hashed_key_identifier(key_identifier.spec_bytes()),
{
    let salt = "xiaoo-sandbox-key-v1";
    let derived = pbkdf2_hmac_sha256(
        key_identifier.as_bytes(),
        salt.as_bytes(),
        KEY_IDENTIFIER_PBKDF2_ITERATIONS,
        KEY_IDENTIFIER_DERIVED_LEN,
    );
    base64_url_no_pad_encode(derived.as_slice())
}

} // verus!
