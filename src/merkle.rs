//! Merkle roots over 32-byte identifiers, as the block header commits to them.
use vstd::prelude::*;

use crate::hashing::{sha256d, sha256d_of};

verus! {

/// The views of a list of 32-byte identifiers.
pub open spec fn hash_views(s: Seq<[u8; 32]>) -> Seq<Seq<u8>> {
    s.map_values(|h: [u8; 32]| h@)
}

/// The parent of two nodes: the double hash of their concatenation.
pub open spec fn parent_of(left: Seq<u8>, right: Seq<u8>) -> Seq<u8> {
    sha256d_of(left + right)
}

/// The level above `level`: nodes paired left to right, the last node paired
/// with itself when the count is odd.
pub open spec fn next_level(level: Seq<Seq<u8>>) -> Seq<Seq<u8>> {
    Seq::new(
        ((level.len() + 1) / 2) as nat,
        |i: int|
            parent_of(
                level[2 * i],
                if 2 * i + 1 < level.len() {
                    level[2 * i + 1]
                } else {
                    level[2 * i]
                },
            ),
    )
}

/// The merkle root of a non-empty list of nodes; a single node is its own root.
pub open spec fn merkle_root(level: Seq<Seq<u8>>) -> Seq<u8>
    decreases level.len(),
{
    if level.len() <= 1 {
        level[0]
    } else {
        merkle_root(next_level(level))
    }
}

/// Appends the bytes of `b` to `out`.
pub fn append_bytes(out: &mut Vec<u8>, b: &[u8])
    ensures
        final(out)@ == old(out)@ + b@,
{
    let mut i: usize = 0;
    while i < b.len()
        invariant
            i <= b@.len(),
            out@ == old(out)@ + b@.subrange(0, i as int),
        decreases b@.len() - i,
    {
        out.push(b[i]);
        i += 1;
        assert(out@ =~= old(out)@ + b@.subrange(0, i as int));
    }
    assert(b@.subrange(0, b@.len() as int) =~= b@);
}

/// The double hash of two 32-byte nodes laid side by side.
fn hash_pair(left: &[u8; 32], right: &[u8; 32]) -> (r: [u8; 32])
    ensures
        r@ == parent_of(left@, right@),
{
    let mut buf: Vec<u8> = Vec::with_capacity(64);
    append_bytes(&mut buf, left);
    append_bytes(&mut buf, right);
    sha256d(buf.as_slice())
}

/// The level above `level`, computed.
fn compute_next_level(level: &Vec<[u8; 32]>) -> (r: Vec<[u8; 32]>)
    requires
        level@.len() >= 1,
    ensures
        r@.len() == (level@.len() + 1) / 2,
        hash_views(r@) == next_level(hash_views(level@)),
{
    let n = level.len();
    let half = n / 2 + n % 2;
    let mut r: Vec<[u8; 32]> = Vec::with_capacity(half);
    let mut k: usize = 0;
    while k < half
        invariant
            n == level@.len(),
            half == (n + 1) / 2,
            k <= half,
            r@.len() == k,
            forall|j: int|
                0 <= j < k ==> #[trigger] r@[j]@ == next_level(hash_views(level@))[j],
        decreases half - k,
    {
        let left = 2 * k;
        let right = if left + 1 < n {
            left + 1
        } else {
            left
        };
        let h = hash_pair(&level[left], &level[right]);
        r.push(h);
        k += 1;
    }
    assert(hash_views(r@) =~= next_level(hash_views(level@)));
    r
}

/// The merkle root of a non-empty list of 32-byte identifiers.
pub fn compute_merkle_root(ids: &Vec<[u8; 32]>) -> (r: [u8; 32])
    requires
        ids@.len() >= 1,
    ensures
        r@ == merkle_root(hash_views(ids@)),
{
    if ids.len() == 1 {
        return ids[0];
    }
    let mut level: Vec<[u8; 32]> = compute_next_level(ids);
    while level.len() > 1
        invariant
            level@.len() >= 1,
            merkle_root(hash_views(level@)) == merkle_root(hash_views(ids@)),
        decreases level@.len(),
    {
        level = compute_next_level(&level);
    }
    level[0]
}

/// For a list of odd length, at least three, appending a copy of its last
/// node leaves the merkle root unchanged: the odd level already pairs the
/// last node with itself.
pub proof fn lemma_duplicate_last_same_root(level: Seq<Seq<u8>>)
    requires
        level.len() % 2 == 1,
        level.len() >= 3,
    ensures
        merkle_root(level.push(level.last())) == merkle_root(level),
{
    let longer = level.push(level.last());
    assert(next_level(longer) =~= next_level(level));
}

} // verus!
