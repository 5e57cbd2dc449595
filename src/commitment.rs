//! The witness commitment that the coinbase carries in its first output.
use vstd::prelude::*;

use crate::coinbase::OP_RETURN;
use crate::encode::{compute_wtxid, wtxid};
use crate::error::BlockError;
use crate::hashing::{sha256d, sha256d_of};
use crate::merkle::{append_bytes, compute_merkle_root, hash_views, merkle_root};
use crate::types::{txs_view, Transaction, TxOutView, TxView};

verus! {

/// The four bytes that open a witness commitment.
pub open spec fn commitment_header() -> Seq<u8> {
    seq![0xAAu8, 0x21u8, 0xA9u8, 0xEDu8]
}

/// The witness ids of a block's transactions, the coinbase's taken as zero.
pub open spec fn witness_ids(txs: Seq<TxView>) -> Seq<Seq<u8>> {
    Seq::new(
        txs.len(),
        |i: int|
            if i == 0 {
                Seq::new(32, |j: int| 0u8)
            } else {
                wtxid(txs[i])
            },
    )
}

pub open spec fn witness_root(txs: Seq<TxView>) -> Seq<u8> {
    merkle_root(witness_ids(txs))
}

/// The reserved value: the first witness item of the coinbase's input.
pub open spec fn reserved_value(txs: Seq<TxView>) -> Seq<u8> {
    txs[0].input[0].witness[0]
}

/// The coinbase has what the commitment needs: an output, and an input whose
/// first witness item is 32 bytes long.
pub open spec fn commitment_ready(txs: Seq<TxView>) -> bool {
    &&& txs.len() >= 1
    &&& txs[0].input.len() >= 1
    &&& txs[0].output.len() >= 1
    &&& txs[0].input[0].witness.len() >= 1
    &&& txs[0].input[0].witness[0].len() == 32
}

/// The double hash of the witness root followed by the reserved value.
pub open spec fn commitment_hash(txs: Seq<TxView>) -> Seq<u8> {
    sha256d_of(witness_root(txs) + reserved_value(txs))
}

/// The commitment output script: `OP_RETURN`, a 36-byte push, the header and
/// the hash.
pub open spec fn commitment_script(hash: Seq<u8>) -> Seq<u8> {
    seq![OP_RETURN, 36u8] + commitment_header() + hash
}

/// `t` with the script of its first output replaced.
pub open spec fn with_first_script(t: TxView, script: Seq<u8>) -> TxView {
    TxView {
        output: t.output.update(0, TxOutView { script_pubkey: script, ..t.output[0] }),
        ..t
    }
}

/// The transactions with the commitment written into the coinbase.
pub open spec fn committed(txs: Seq<TxView>) -> Seq<TxView> {
    txs.update(0, with_first_script(txs[0], commitment_script(commitment_hash(txs))))
}

/// The witness ids of `txs`, computed.
fn compute_witness_ids(txs: &Vec<Transaction>) -> (r: Vec<[u8; 32]>)
    ensures
        r@.len() == txs@.len(),
        hash_views(r@) == witness_ids(txs_view(txs@)),
{
    let mut r: Vec<[u8; 32]> = Vec::with_capacity(txs.len());
    let mut k: usize = 0;
    while k < txs.len()
        invariant
            k <= txs@.len(),
            r@.len() == k,
            forall|j: int|
                0 <= j < k ==> #[trigger] r@[j]@ == witness_ids(txs_view(txs@))[j],
        decreases txs@.len() - k,
    {
        if k == 0 {
            let z = [0u8; 32];
            assert(z@ =~= Seq::new(32, |j: int| 0u8));
            r.push(z);
        } else {
            r.push(compute_wtxid(&txs[k]));
        }
        k += 1;
    }
    assert(hash_views(r@) =~= witness_ids(txs_view(txs@)));
    r
}

/// Writes the witness commitment into the first output of the coinbase.
/// Fails, changing nothing, where the coinbase lacks what the commitment needs.
pub fn prepare_commitment(txs: &mut Vec<Transaction>) -> (r: Result<(), BlockError>)
    ensures
        r is Ok <==> commitment_ready(txs_view(old(txs)@)),
        r is Ok ==> txs_view(final(txs)@) == committed(txs_view(old(txs)@)),
        r is Err ==> r == Err::<(), BlockError>(BlockError::CommitmentComputationError)
            && final(txs)@ == old(txs)@,
{
    if txs.len() == 0 || txs[0].input.len() == 0 || txs[0].output.len() == 0
        || txs[0].input[0].witness.len() == 0 || txs[0].input[0].witness[0].len() != 32 {
        return Err(BlockError::CommitmentComputationError);
    }
    let ghost views = txs_view(txs@);
    let ids = compute_witness_ids(txs);
    let root = compute_merkle_root(&ids);
    let mut data: Vec<u8> = Vec::with_capacity(64);
    append_bytes(&mut data, &root);
    append_bytes(&mut data, txs[0].input[0].witness[0].as_slice());
    let hash = sha256d(data.as_slice());
    let mut script: Vec<u8> = Vec::with_capacity(38);
    script.push(OP_RETURN);
    script.push(36);
    script.push(0xAA);
    script.push(0x21);
    script.push(0xA9);
    script.push(0xED);
    append_bytes(&mut script, &hash);
    assert(script@ =~= commitment_script(commitment_hash(views)));
    let ghost before = txs@;
    txs[0].output[0].script_pubkey = script;
    assert(txs@[0]@.output =~= with_first_script(before[0]@, script@).output);
    assert(txs@[0]@ == with_first_script(before[0]@, script@));
    assert(forall|k: int| 1 <= k < txs@.len() ==> txs@[k] == before[k]);
    assert(txs_view(txs@) =~= committed(views));
    Ok(())
}

} // verus!
