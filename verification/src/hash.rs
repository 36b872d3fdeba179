use vstd::prelude::*;
use crate::util::chars_to_string;

verus! {

// ---------------------------------------------------------------------------
// Digest algorithm selection
// ---------------------------------------------------------------------------

/// The closed set of digest algorithms the monitor supports: a fast
/// non-cryptographic default and an opt-in cryptographic one.
#[derive(Clone, Copy, PartialEq, Eq, Structural)]
pub enum HashAlg {
    Blake3,
    Sha256,
}

/// Name for what `str::to_lowercase` returns; the result depends on the
/// characters alone.
pub uninterp spec fn lower_of(s: Seq<char>) -> Seq<char>;

/// Relies on `str::to_lowercase`: the lowercased string is a function of
/// the input characters alone.
#[verifier::external_body]
fn to_lowercase(s: &String) -> (r: String)
    ensures
        r@ == lower_of(s@),
{
    s.to_lowercase()
}

/// Which algorithm a configured name selects: only the (case-folded) name
/// `sha256` picks the cryptographic digest; every other name, including a
/// misspelled one, falls back to the default. The fallback is deliberate
/// policy: a typo in the configuration must not break an existing baseline.
pub open spec fn alg_of_name(name: Seq<char>) -> HashAlg {
    if lower_of(name) == "sha256"@ {
        HashAlg::Sha256
    } else {
        HashAlg::Blake3
    }
}

/// Resolves a configured algorithm name to a `HashAlg`, once at startup.
pub fn resolve_alg(name: &String) -> (r: HashAlg)
    ensures
        r == alg_of_name(name@),
{
    let lower = to_lowercase(name);
    let sha_name = String::from_str("sha256");
    let is_sha = lower == sha_name;
    if is_sha {
        HashAlg::Sha256
    } else {
        HashAlg::Blake3
    }
}

// ---------------------------------------------------------------------------
// Digest results, named
// ---------------------------------------------------------------------------

/// Name for the BLAKE3 digest of a byte sequence.
pub uninterp spec fn blake3_of(data: Seq<u8>) -> Seq<u8>;

/// Name for the SHA-256 digest of a byte sequence.
pub uninterp spec fn sha256_of(data: Seq<u8>) -> Seq<u8>;

/// The digest the selected algorithm assigns to `data`.
pub open spec fn digest_of(alg: HashAlg, data: Seq<u8>) -> Seq<u8> {
    match alg {
        HashAlg::Blake3 => blake3_of(data),
        HashAlg::Sha256 => sha256_of(data),
    }
}

/// The lowercase hex spelling of the selected digest: what the monitor
/// stores and reports as a file's content hash.
pub open spec fn hash_hex_of(alg: HashAlg, data: Seq<u8>) -> Seq<char> {
    hex_lower(digest_of(alg, data))
}

// ---------------------------------------------------------------------------
// Lowercase hex encoding (verified)
// ---------------------------------------------------------------------------

/// The lowercase hex digit for a value below 16.
pub open spec fn hex_digit(d: int) -> char {
    if d == 0 { '0' } else if d == 1 { '1' } else if d == 2 { '2' }
    else if d == 3 { '3' } else if d == 4 { '4' } else if d == 5 { '5' }
    else if d == 6 { '6' } else if d == 7 { '7' } else if d == 8 { '8' }
    else if d == 9 { '9' } else if d == 10 { 'a' } else if d == 11 { 'b' }
    else if d == 12 { 'c' } else if d == 13 { 'd' } else if d == 14 { 'e' }
    else { 'f' }
}

/// Lowercase hex spelling of a byte sequence: two digits per byte,
/// high nibble first.
pub open spec fn hex_lower(bytes: Seq<u8>) -> Seq<char>
    decreases bytes.len(),
{
    if bytes.len() == 0 {
        Seq::<char>::empty()
    } else {
        hex_lower(bytes.drop_last())
            + seq![hex_digit(bytes.last() as int / 16), hex_digit(bytes.last() as int % 16)]
    }
}

pub(crate) fn hex_digit_exec(d: u8) -> (r: char)
    requires
        d < 16,
    ensures
        r == hex_digit(d as int),
{
    if d == 0 { '0' } else if d == 1 { '1' } else if d == 2 { '2' }
    else if d == 3 { '3' } else if d == 4 { '4' } else if d == 5 { '5' }
    else if d == 6 { '6' } else if d == 7 { '7' } else if d == 8 { '8' }
    else if d == 9 { '9' } else if d == 10 { 'a' } else if d == 11 { 'b' }
    else if d == 12 { 'c' } else if d == 13 { 'd' } else if d == 14 { 'e' }
    else { 'f' }
}

/// Encodes bytes as lowercase hex, two digits per byte.
pub fn hex_encode(bytes: &Vec<u8>) -> (r: String)
    ensures
        r@ == hex_lower(bytes@),
{
    let mut out: Vec<char> = Vec::new();
    let mut i: usize = 0;
    while i < bytes.len()
        invariant
            i <= bytes.len(),
            out@ == hex_lower(bytes@.take(i as int)),
        decreases bytes.len() - i,
    {
        let b = bytes[i];
        out.push(hex_digit_exec(b / 16));
        out.push(hex_digit_exec(b % 16));
        i = i + 1;
        assert(bytes@.take(i as int).drop_last() == bytes@.take(i as int - 1));
        assert(bytes@.take(i as int).last() == bytes@[i as int - 1]);
    }
    assert(bytes@.take(bytes.len() as int) == bytes@);
    chars_to_string(&out)
}

// ---------------------------------------------------------------------------
// Streaming hasher states, behind trusted wrappers
// ---------------------------------------------------------------------------

#[verifier::external_type_specification]
#[verifier::external_body]
pub struct ExBlake3Hasher(blake3::Hasher);

#[verifier::external_type_specification]
#[verifier::external_body]
pub struct ExSha256(sha2::Sha256);

/// Name for the bytes a BLAKE3 hasher state has absorbed so far.
pub uninterp spec fn blake3_fed(h: blake3::Hasher) -> Seq<u8>;

/// Name for the bytes a SHA-256 hasher state has absorbed so far.
pub uninterp spec fn sha256_fed(h: sha2::Sha256) -> Seq<u8>;

/// Relies on `blake3::Hasher::new`: a fresh state has absorbed nothing.
#[verifier::external_body]
fn blake3_new() -> (h: blake3::Hasher)
    ensures
        blake3_fed(h) == Seq::<u8>::empty(),
{
    blake3::Hasher::new()
}

/// Relies on `blake3::Hasher::update`: the state absorbs the chunk after
/// everything absorbed before.
#[verifier::external_body]
fn blake3_update(h: &mut blake3::Hasher, chunk: &[u8])
    ensures
        blake3_fed(*final(h)) == blake3_fed(*old(h)) + chunk@,
{
    h.update(chunk);
}

/// Relies on `blake3::Hasher::finalize`: the 32-byte digest of the absorbed
/// bytes, a function of those bytes alone.
#[verifier::external_body]
fn blake3_digest(h: &blake3::Hasher) -> (r: Vec<u8>)
    ensures
        r@ == blake3_of(blake3_fed(*h)),
        r@.len() == 32,
{
    h.finalize().as_bytes().to_vec()
}

/// Relies on `sha2::Sha256::new` (via the `Digest` trait): a fresh state
/// has absorbed nothing.
#[verifier::external_body]
fn sha256_new() -> (h: sha2::Sha256)
    ensures
        sha256_fed(h) == Seq::<u8>::empty(),
{
    <sha2::Sha256 as sha2::Digest>::new()
}

/// Relies on `sha2::Sha256::update` (via the `Digest` trait): the state
/// absorbs the chunk after everything absorbed before.
#[verifier::external_body]
fn sha256_update(h: &mut sha2::Sha256, chunk: &[u8])
    ensures
        sha256_fed(*final(h)) == sha256_fed(*old(h)) + chunk@,
{
    sha2::Digest::update(h, chunk);
}

/// Relies on `sha2::Sha256`'s `Clone` and `finalize` (via the `Digest`
/// trait): the 32-byte digest of the absorbed bytes, a function of those
/// bytes alone.
#[verifier::external_body]
fn sha256_digest(h: &sha2::Sha256) -> (r: Vec<u8>)
    ensures
        r@ == sha256_of(sha256_fed(*h)),
        r@.len() == 32,
{
    sha2::Digest::finalize(h.clone()).to_vec()
}

// ---------------------------------------------------------------------------
// The content hasher facade
// ---------------------------------------------------------------------------

/// An incremental content hasher: callers feed file bytes in bounded-size
/// chunks (so whole files never sit in memory) and finish with the
/// lowercase hex digest.
pub enum Digester {
    Blake3(blake3::Hasher),
    Sha256(sha2::Sha256),
}

impl Digester {
    /// Which algorithm this state runs.
    pub closed spec fn alg(&self) -> HashAlg {
        match self {
            Digester::Blake3(_) => HashAlg::Blake3,
            Digester::Sha256(_) => HashAlg::Sha256,
        }
    }

    /// The bytes absorbed so far.
    pub closed spec fn fed(&self) -> Seq<u8> {
        match self {
            Digester::Blake3(h) => blake3_fed(*h),
            Digester::Sha256(h) => sha256_fed(*h),
        }
    }

    pub fn new(alg: HashAlg) -> (r: Self)
        ensures
            r.alg() == alg,
            r.fed() == Seq::<u8>::empty(),
    {
        match alg {
            HashAlg::Blake3 => Digester::Blake3(blake3_new()),
            HashAlg::Sha256 => Digester::Sha256(sha256_new()),
        }
    }

    pub fn update(&mut self, chunk: &[u8])
        ensures
            final(self).alg() == old(self).alg(),
            final(self).fed() == old(self).fed() + chunk@,
    {
        match self {
            Digester::Blake3(h) => blake3_update(h, chunk),
            Digester::Sha256(h) => sha256_update(h, chunk),
        }
    }

    /// The lowercase hex digest of everything absorbed.
    pub fn finalize_hex(&self) -> (r: String)
        ensures
            r@ == hash_hex_of(self.alg(), self.fed()),
    {
        let bytes = match self {
            Digester::Blake3(h) => blake3_digest(h),
            Digester::Sha256(h) => sha256_digest(h),
        };
        hex_encode(&bytes)
    }
}

/// Hashes a whole in-memory buffer: the hex digest of `data` under `alg`.
pub fn hash_bytes(alg: HashAlg, data: &[u8]) -> (r: String)
    ensures
        r@ == hash_hex_of(alg, data@),
{
    let mut d = Digester::new(alg);
    d.update(data);
    proof {
        assert(d.fed() == Seq::<u8>::empty() + data@);
        assert(Seq::<u8>::empty() + data@ == data@);
    }
    d.finalize_hex()
}

} // verus!
