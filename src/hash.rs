//! Content addresses, signatures and their byte encodings.
use vstd::prelude::*;

verus! {

/// The 256-bit BLAKE2b digest of a byte string, as (high half, low half),
/// each half read big-endian from the digest bytes.
pub uninterp spec fn blake2b_256_of(data: Seq<u8>) -> (u128, u128);

/// The 512-bit keyed BLAKE2b tag of a byte string, as four 128-bit words,
/// each read big-endian, most significant first.
pub uninterp spec fn blake2b_keyed_512_of(key: Seq<u8>, data: Seq<u8>) -> (u128, u128, u128, u128);

/// A 256-bit content address (of a header, an entry, a DNA or an agent key).
#[derive(Clone, Copy, Debug, PartialEq, Eq, Hash, Structural)]
pub struct HoloHash {
    pub hi: u128,
    pub lo: u128,
}

pub type HeaderHash = HoloHash;

pub type EntryHash = HoloHash;

pub type DnaHash = HoloHash;

pub type AgentPubKey = HoloHash;

pub type AnyDhtHash = HoloHash;

/// A 512-bit signature over a header's encoding.
#[derive(Clone, Copy, Debug, PartialEq, Eq, Hash, Structural)]
pub struct Signature {
    pub w0: u128,
    pub w1: u128,
    pub w2: u128,
    pub w3: u128,
}

/// Relies on blake2b_simd's `Params::hash` with a hash length of 32: the
/// digest is a function of the input bytes alone.
#[verifier::external_body]
fn blake2b_256(data: &Vec<u8>) -> (r: (u128, u128))
    ensures
        r == blake2b_256_of(data@),
{
    let digest = blake2b_simd::Params::new().hash_length(32).hash(data.as_slice());
    let b = digest.as_bytes();
    (
        u128::from_be_bytes(b[0..16].try_into().unwrap()),
        u128::from_be_bytes(b[16..32].try_into().unwrap()),
    )
}

/// Relies on blake2b_simd's `Params::key` and `Params::hash` (default hash
/// length of 64): a keyed tag that is a function of the key and input alone.
/// `Params::key` panics on a key longer than 64 bytes.
#[verifier::external_body]
fn blake2b_keyed_512(key: &Vec<u8>, data: &Vec<u8>) -> (r: (u128, u128, u128, u128))
    requires
        key@.len() <= 64,
    ensures
        r == blake2b_keyed_512_of(key@, data@),
{
    let tag = blake2b_simd::Params::new().key(key.as_slice()).hash(data.as_slice());
    let b = tag.as_bytes();
    (
        u128::from_be_bytes(b[0..16].try_into().unwrap()),
        u128::from_be_bytes(b[16..32].try_into().unwrap()),
        u128::from_be_bytes(b[32..48].try_into().unwrap()),
        u128::from_be_bytes(b[48..64].try_into().unwrap()),
    )
}

/// The content address of a byte string.
pub open spec fn hash_of(data: Seq<u8>) -> HoloHash {
    HoloHash { hi: blake2b_256_of(data).0, lo: blake2b_256_of(data).1 }
}

/// The tag of a byte string under a secret key.
pub open spec fn tag_of(key: Seq<u8>, data: Seq<u8>) -> Signature {
    let t = blake2b_keyed_512_of(key, data);
    Signature { w0: t.0, w1: t.1, w2: t.2, w3: t.3 }
}

/// Hashes a byte string into a content address.
pub fn hash_bytes(data: &Vec<u8>) -> (r: HoloHash)
    ensures
        r == hash_of(data@),
{
    let (hi, lo) = blake2b_256(data);
    HoloHash { hi, lo }
}

/// Tags a byte string under a secret key of at most 64 bytes.
pub fn tag_bytes(key: &Vec<u8>, data: &Vec<u8>) -> (r: Signature)
    requires
        key@.len() <= 64,
    ensures
        r == tag_of(key@, data@),
{
    let (w0, w1, w2, w3) = blake2b_keyed_512(key, data);
    Signature { w0, w1, w2, w3 }
}

/// The `n` low bytes of `x`, least significant first.
pub open spec fn le_bytes(x: nat, n: nat) -> Seq<u8>
    decreases n,
{
    if n == 0 {
        seq![]
    } else {
        seq![(x % 256) as u8] + le_bytes(x / 256, (n - 1) as nat)
    }
}

/// Appends the `n` low bytes of `x` to `out`, least significant first.
pub fn push_le(out: &mut Vec<u8>, x: u128, n: usize)
    ensures
        final(out)@ == old(out)@ + le_bytes(x as nat, n as nat),
{
    let mut y: u128 = x;
    let mut i: usize = 0;
    while i < n
        invariant
            i <= n,
            out@ + le_bytes(y as nat, (n - i) as nat) == old(out)@ + le_bytes(x as nat, n as nat),
        decreases n - i,
    {
        let ghost before = out@;
        out.push((y % 256) as u8);
        assert(le_bytes(y as nat, (n - i) as nat) == seq![(y % 256) as u8] + le_bytes(
            (y / 256) as nat,
            (n - i - 1) as nat,
        ));
        assert(out@ + le_bytes((y / 256) as nat, (n - i - 1) as nat) =~= before + le_bytes(
            y as nat,
            (n - i) as nat,
        ));
        y = y / 256;
        i = i + 1;
    }
    assert(le_bytes(y as nat, 0) =~= seq![]);
    assert(out@ + le_bytes(y as nat, 0) =~= out@);
}

/// The encoding of a content address: both halves, low bytes first.
pub open spec fn hash_encoding(h: HoloHash) -> Seq<u8> {
    le_bytes(h.lo as nat, 16) + le_bytes(h.hi as nat, 16)
}

/// Appends the encoding of a content address to `out`.
pub fn push_hash(out: &mut Vec<u8>, h: &HoloHash)
    ensures
        final(out)@ == old(out)@ + hash_encoding(*h),
{
    push_le(out, h.lo, 16);
    push_le(out, h.hi, 16);
    assert(out@ =~= old(out)@ + hash_encoding(*h));
}

} // verus!
