//! The proof-of-work search over the header nonce.
use vstd::prelude::*;

use crate::encode::{block_hash, compute_block_hash};
use crate::error::BlockError;
use crate::hashing::{hash_meets_target, meets_target};
use crate::types::{Header, HeaderView};

verus! {

pub open spec fn with_nonce(h: HeaderView, nonce: u32) -> HeaderView {
    HeaderView { nonce, ..h }
}

/// The header's hash meets the target that its own bits encode.
pub open spec fn pow_valid(h: HeaderView) -> bool {
    meets_target(block_hash(h), h.bits)
}

/// `nonce` is the least nonce that makes `h` valid.
pub open spec fn least_working_nonce(h: HeaderView, nonce: u32) -> bool {
    &&& pow_valid(with_nonce(h, nonce))
    &&& forall|m: u32| m < nonce ==> !pow_valid(#[trigger] with_nonce(h, m))
}

/// No nonce makes `h` valid.
pub open spec fn no_working_nonce(h: HeaderView) -> bool {
    forall|m: u32| !pow_valid(#[trigger] with_nonce(h, m))
}

/// `h` is what the search makes of `base`: `base` with its least working nonce.
pub open spec fn mined_from(h: HeaderView, base: HeaderView) -> bool {
    h == with_nonce(base, h.nonce) && least_working_nonce(base, h.nonce)
}

/// Whether the header's hash meets the target its bits encode.
pub fn validate_pow(header: &Header) -> (r: bool)
    ensures
        r == pow_valid(header@),
{
    let hash = compute_block_hash(header);
    hash_meets_target(&hash, header.bits)
}

/// Searches nonces upward from zero and sets the first that makes the header
/// valid. Where none does, reports the exhausted nonce space and leaves the
/// header as it was.
pub fn mine_header(header: &mut Header) -> (r: Result<(), BlockError>)
    ensures
        r is Ok <==> !no_working_nonce(old(header)@),
        r is Ok ==> mined_from(final(header)@, old(header)@),
        r is Err ==> r == Err::<(), BlockError>(BlockError::ProofOfWorkExhausted)
            && final(header)@ == old(header)@,
{
    let original: u32 = header.nonce;
    let ghost base = header@;
    let mut n: u32 = 0;
    loop
        invariant
            header@ == with_nonce(base, header.nonce),
            base.nonce == original,
            base == old(header)@,
            forall|m: u32| m < n ==> !pow_valid(#[trigger] with_nonce(base, m)),
        decreases u32::MAX - n,
    {
        header.nonce = n;
        assert(header@ == with_nonce(base, n));
        if validate_pow(header) {
            assert(pow_valid(with_nonce(base, n)));
            assert(with_nonce(base, header.nonce) == header@);
            return Ok(());
        }
        if n == u32::MAX {
            header.nonce = original;
            assert(header@ =~= base);
            assert forall|m: u32| !pow_valid(#[trigger] with_nonce(base, m)) by {
                if m < n {
                } else {
                    assert(m == n);
                }
            }
            return Err(BlockError::ProofOfWorkExhausted);
        }
        n += 1;
    }
}

} // verus!
