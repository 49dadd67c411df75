//! Genomes and their derivation.
//!
//! A genome is sixteen bytes fixed at creation. A fresh genome (or, when
//! breeding, a selection mask) is derived by hashing the entropy seed, the
//! calling account and an operation sequence number with a 128-bit digest.

use vstd::prelude::*;

verus! {

/// A creature: sixteen trait bytes, immutable once created.
#[derive(Clone, Copy, PartialEq, Eq, Debug)]
pub struct Kitty(pub [u8; 16]);

/// The little-endian bytes of a 64-bit integer, the form the SCALE codec
/// gives fixed-width integers.
pub open spec fn u64_le_bytes(x: u64) -> Seq<u8> {
    seq![
        (x & 0xff) as u8,
        ((x >> 8) & 0xff) as u8,
        ((x >> 16) & 0xff) as u8,
        ((x >> 24) & 0xff) as u8,
        ((x >> 32) & 0xff) as u8,
        ((x >> 40) & 0xff) as u8,
        ((x >> 48) & 0xff) as u8,
        ((x >> 56) & 0xff) as u8,
    ]
}

/// The little-endian bytes of a 32-bit integer, the form the SCALE codec
/// gives fixed-width integers.
pub open spec fn u32_le_bytes(x: u32) -> Seq<u8> {
    seq![
        (x & 0xff) as u8,
        ((x >> 8) & 0xff) as u8,
        ((x >> 16) & 0xff) as u8,
        ((x >> 24) & 0xff) as u8,
    ]
}

/// What the blake2b digest with a 16-byte output returns on the given bytes;
/// fixed by the input alone.
pub uninterp spec fn blake2_128_of(data: Seq<u8>) -> Seq<u8>;

/// Relies on `blake2b_simd::Params::hash`: blake2b parameterized to a
/// 16-byte digest, a pure function of the input bytes.
#[verifier::external_body]
fn blake2_128(data: &Vec<u8>) -> (r: [u8; 16])
    ensures
        r@ == blake2_128_of(data@),
{
    let hash = blake2b_simd::Params::new().hash_length(16).hash(data.as_slice());
    let mut out = [0u8; 16];
    out.copy_from_slice(hash.as_bytes());
    out
}

/// Relies on `parity_scale_codec::Encode` for `u64`: a fixed-width integer
/// encodes to exactly its little-endian bytes.
#[verifier::external_body]
fn encode_u64(x: u64) -> (r: Vec<u8>)
    ensures
        r@ == u64_le_bytes(x),
{
    parity_scale_codec::Encode::encode(&x)
}

/// Relies on `parity_scale_codec::Encode` for `u32`: a fixed-width integer
/// encodes to exactly its little-endian bytes.
#[verifier::external_body]
fn encode_u32(x: u32) -> (r: Vec<u8>)
    ensures
        r@ == u32_le_bytes(x),
{
    parity_scale_codec::Encode::encode(&x)
}

/// The bytes hashed when deriving a genome: the entropy seed, then the
/// calling account, then the operation sequence number, each in SCALE form.
pub open spec fn payload_bytes(seed: Seq<u8>, caller: u64, sequence: u32) -> Seq<u8> {
    seed + u64_le_bytes(caller) + u32_le_bytes(sequence)
}

/// The genome (or selection mask) derived from an entropy seed, a calling
/// account and an operation sequence number.
pub open spec fn derive_spec(seed: Seq<u8>, caller: u64, sequence: u32) -> Seq<u8> {
    blake2_128_of(payload_bytes(seed, caller, sequence))
}

/// Lays out the derivation payload: seed, caller, sequence number, in that
/// order.
pub fn payload_for(seed: &[u8; 32], caller: u64, sequence: u32) -> (r: Vec<u8>)
    ensures
        r@ == payload_bytes(seed@, caller, sequence),
{
    let mut payload: Vec<u8> = Vec::new();
    let mut i: usize = 0;
    while i < 32
        invariant
            i <= 32,
            payload@ == seed@.take(i as int),
        decreases 32 - i,
    {
        payload.push(seed[i]);
        assert(payload@ =~= seed@.take(i + 1 as int));
        i = i + 1;
    }
    assert(payload@ =~= seed@);
    let mut caller_bytes = encode_u64(caller);
    payload.append(&mut caller_bytes);
    let mut sequence_bytes = encode_u32(sequence);
    payload.append(&mut sequence_bytes);
    payload
}

/// Derives sixteen genome (or mask) bytes from the entropy seed, the calling
/// account and the operation sequence number.
pub fn derive_genome(seed: &[u8; 32], caller: u64, sequence: u32) -> (r: [u8; 16])
    ensures
        r@ == derive_spec(seed@, caller, sequence),
{
    let payload = payload_for(seed, caller, sequence);
    blake2_128(&payload)
}

/// The byte a child inherits at one position: bits set in the mask come from
/// the first parent, the rest from the second.
pub open spec fn child_byte(p1: u8, p2: u8, mask: u8) -> u8 {
    (p1 & mask) | (p2 & !mask)
}

/// Mixes two parent genomes under a selection mask, bit by bit: at every
/// position the child byte is `(p1 & mask) | (p2 & !mask)`.
pub fn mix_genomes(parent1: &Kitty, parent2: &Kitty, mask: &[u8; 16]) -> (child: Kitty)
    ensures
        forall|i: int|
            0 <= i < 16 ==> child.0@[i] == child_byte(parent1.0@[i], parent2.0@[i], mask@[i]),
{
    let mut data = [0u8; 16];
    let mut i: usize = 0;
    while i < 16
        invariant
            i <= 16,
            forall|j: int|
                0 <= j < i ==> data@[j] == child_byte(parent1.0@[j], parent2.0@[j], mask@[j]),
        decreases 16 - i,
    {
        data[i] = (parent1.0[i] & mask[i]) | (parent2.0[i] & !mask[i]);
        i = i + 1;
    }
    Kitty(data)
}

} // verus!
