//! SHA-256 digests of byte streams fed in chunks, and their lower-case hex
//! text.

use vstd::prelude::*;

verus! {

/// The 32-byte SHA-256 digest of `bytes` (sha2's `Sha256`).
pub uninterp spec fn sha256_of(bytes: Seq<u8>) -> Seq<u8>;

/// A running `sha2::Sha256`. Held behind this struct because Verus refuses
/// to declare `sha2::Sha256` itself (an alias of a generic instantiation).
#[verifier::external_body]
pub struct Sha256Hasher {
    hasher: sha2::Sha256,
}

/// The bytes a hasher has been fed.
pub uninterp spec fn sha256_fed(h: Sha256Hasher) -> Seq<u8>;

/// `sha2::Sha256::new`. Claimed: nothing has been fed yet.
#[verifier::external_body]
fn hasher_new() -> (h: Sha256Hasher)
    ensures
        sha256_fed(h) == Seq::<u8>::empty(),
{
    Sha256Hasher { hasher: <sha2::Sha256 as sha2::Digest>::new() }
}

/// `sha2::Digest::update`. Claimed: `chunk` follows the bytes fed before.
#[verifier::external_body]
fn hasher_update(h: &mut Sha256Hasher, chunk: &[u8])
    ensures
        sha256_fed(*final(h)) == sha256_fed(*old(h)) + chunk@,
{
    sha2::Digest::update(&mut h.hasher, chunk);
}

/// `sha2::Digest::finalize`. Claimed: the digest of the bytes fed, 32 bytes
/// long.
#[verifier::external_body]
fn hasher_finalize(h: Sha256Hasher) -> (d: Vec<u8>)
    ensures
        d@ == sha256_of(sha256_fed(h)),
        d@.len() == 32,
{
    sha2::Digest::finalize(h.hasher).to_vec()
}

/// The lower-case hex digit of `d` (below 16).
pub open spec fn hex_digit_lower(d: u8) -> char {
    if d < 10 { (48 + d) as char } else { (87 + d) as char }
}

/// The lower-case hex text of `bytes`, two digits a byte, high digit first.
pub open spec fn lower_hex(bytes: Seq<u8>) -> Seq<char>
    decreases bytes.len(),
{
    if bytes.len() == 0 {
        Seq::empty()
    } else {
        lower_hex(bytes.drop_last()) + seq![hex_digit_lower(bytes.last() / 16), hex_digit_lower(bytes.last() % 16)]
    }
}

proof fn lemma_lower_hex_len(bytes: Seq<u8>)
    ensures
        lower_hex(bytes).len() == 2 * bytes.len(),
    decreases bytes.len(),
{
    if bytes.len() > 0 {
        lemma_lower_hex_len(bytes.drop_last());
    }
}

fn hex_char(d: u8) -> (c: char)
    requires
        d < 16,
    ensures
        c == hex_digit_lower(d),
{
    if d < 10 { (48 + d) as char } else { (87 + d) as char }
}

/// The lower-case hex text of `bytes`.
pub fn to_lower_hex(bytes: &[u8]) -> (s: String)
    ensures
        s@ == lower_hex(bytes@),
        s@.len() == 2 * bytes@.len(),
{
    let mut s = String::new();
    let mut i: usize = 0;
    while i < bytes.len()
        invariant
            i <= bytes@.len(),
            s@ == lower_hex(bytes@.take(i as int)),
        decreases bytes@.len() - i,
    {
        let b = bytes[i];
        crate::text::push_char(&mut s, hex_char(b / 16));
        crate::text::push_char(&mut s, hex_char(b % 16));
        assert(bytes@.take(i + 1).drop_last() =~= bytes@.take(i as int));
        i = i + 1;
    }
    assert(bytes@.take(bytes@.len() as int) =~= bytes@);
    proof {
        lemma_lower_hex_len(bytes@);
    }
    s
}

/// The SHA-256 digest of a byte stream fed in chunks.
pub struct Sha256Stream {
    hasher: Sha256Hasher,
}

impl Sha256Stream {
    /// The bytes fed so far.
    pub closed spec fn fed(&self) -> Seq<u8> {
        sha256_fed(self.hasher)
    }

    /// A stream that has been fed nothing.
    pub fn new() -> (s: Self)
        ensures
            s.fed() == Seq::<u8>::empty(),
    {
        Sha256Stream { hasher: hasher_new() }
    }

    /// Feeds `chunk` after the bytes fed before.
    pub fn update(&mut self, chunk: &[u8])
        ensures
            final(self).fed() == old(self).fed() + chunk@,
    {
        hasher_update(&mut self.hasher, chunk);
    }

    /// The lower-case hex SHA-256 of every byte fed: 64 characters.
    pub fn finish_hex(self) -> (s: String)
        ensures
            s@ == lower_hex(sha256_of(self.fed())),
            s@.len() == 64,
    {
        let digest = hasher_finalize(self.hasher);
        to_lower_hex(digest.as_slice())
    }
}

/// The lower-case hex SHA-256 of `bytes`.
pub fn sha256_hex(bytes: &[u8]) -> (s: String)
    ensures
        s@ == lower_hex(sha256_of(bytes@)),
        s@.len() == 64,
{
    let mut stream = Sha256Stream::new();
    stream.update(bytes);
    assert(Seq::<u8>::empty() + bytes@ =~= bytes@);
    stream.finish_hex()
}

} // verus!
