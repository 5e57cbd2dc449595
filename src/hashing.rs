//! Double SHA-256 and the proof-of-work comparison, over plain bytes.
use vstd::arithmetic::power2::pow2;
use vstd::prelude::*;

verus! {

/// The double SHA-256 digest of a byte string.
pub uninterp spec fn sha256d_of(data: Seq<u8>) -> Seq<u8>;

/// Relies on `bitcoin::hashes::sha256d::Hash::hash`: a 32-byte digest that
/// depends on the input bytes alone.
#[verifier::external_body]
pub(crate) fn sha256d(data: &[u8]) -> (r: [u8; 32])
    ensures
        r@ == sha256d_of(data@),
{
    let digest = <bitcoin::hashes::sha256d::Hash as bitcoin::hashes::Hash>::hash(data);
    bitcoin::hashes::Hash::to_byte_array(digest)
}

/// The unsigned number whose little-endian bytes are `s`.
pub open spec fn le_value(s: Seq<u8>) -> nat
    decreases s.len(),
{
    if s.len() == 0 {
        0
    } else {
        s[0] as nat + 256 * le_value(s.subrange(1, s.len() as int))
    }
}

/// The target that a compact difficulty encoding stands for: a 24-bit signed
/// mantissa scaled by a power of 256, taken modulo 2^256 (a negative
/// mantissa gives zero).
pub open spec fn compact_target(bits: u32) -> nat {
    let expt = (bits >> 24u32) as nat;
    let low = (bits & 0xFF_FFFFu32) as nat;
    let mant: nat = if expt <= 3 { low / pow2((8 * (3 - expt)) as nat) } else { low };
    let shift: nat = if expt <= 3 { 0 } else { ((8 * (expt - 3)) % 256) as nat };
    if mant > 0x7F_FFFF {
        0
    } else {
        (mant * pow2(shift)) % pow2(256)
    }
}

/// Whether a block hash, read as a little-endian number, is at most the target.
pub open spec fn meets_target(hash: Seq<u8>, bits: u32) -> bool {
    le_value(hash) <= compact_target(bits)
}

/// Relies on `bitcoin::pow::Target::from_compact` and `Target::is_met_by`:
/// decodes the compact target and compares the little-endian hash with it.
#[verifier::external_body]
pub(crate) fn hash_meets_target(hash: &[u8; 32], bits: u32) -> (r: bool)
    ensures
        r == meets_target(hash@, bits),
{
    let target = bitcoin::Target::from_compact(bitcoin::CompactTarget::from_consensus(bits));
    target.is_met_by(<bitcoin::BlockHash as bitcoin::hashes::Hash>::from_byte_array(*hash))
}

} // verus!
