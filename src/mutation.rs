//! Blocks that break exactly one consensus rule, each named by the reason a
//! node gives when it rejects them.
use vstd::prelude::*;

use crate::assemble::{
    assemble_block, assembled_base, assembled_txs, mine_block, resolve_template, resolved_fields,
    template_valid, txids, txs_merkle_root, unmined_header, update_merkle_root, BlockTemplate,
    ChainState, HeaderFields,
};
use crate::coinbase::{coinbase_of, OP_RETURN};
use crate::commitment::{commitment_hash, committed, witness_ids, with_first_script};
use crate::error::BlockError;
use crate::merkle::lemma_duplicate_last_same_root;
use crate::pow::{mined_from, no_working_nonce};
use crate::types::{txs_view, Block, HeaderView, Transaction, TxInView, TxView};

verus! {

/// A consensus rule that a mutated block breaks, named after the node's
/// rejection reason.
#[derive(Clone, Copy, Debug, PartialEq, Eq, Structural)]
pub enum MutatedBlockError {
    /// The header's merkle root does not match the transactions.
    BadTxnMrklRoot,
    /// The last transaction appears twice, which leaves the merkle root as it was.
    BadTxnsDuplicate,
    /// The coinbase witness stack holds more than the 32-byte reserved value.
    BadWitnessNonceSize,
    /// The witness commitment does not match the witness root.
    BadWitnessMerkleMatch,
    /// Transactions carry witness data but the coinbase commits to none.
    UnexpectedWitness,
}

pub open spec fn rejection_tag(rule: MutatedBlockError) -> Seq<char> {
    match rule {
        MutatedBlockError::BadTxnMrklRoot => "bad-txnmrklroot"@,
        MutatedBlockError::BadTxnsDuplicate => "bad-txns-duplicate"@,
        MutatedBlockError::BadWitnessNonceSize => "bad-witness-nonce-size"@,
        MutatedBlockError::BadWitnessMerkleMatch => "bad-witness-merkle-match"@,
        MutatedBlockError::UnexpectedWitness => "unexpected-witness"@,
    }
}

/// `s` with the lowest bit of its first byte flipped.
pub open spec fn flip_first_bit(s: Seq<u8>) -> Seq<u8> {
    s.update(0, s[0] ^ 1u8)
}

/// `s` with the lowest bit of its last byte flipped.
pub open spec fn flip_last_bit(s: Seq<u8>) -> Seq<u8> {
    s.update(s.len() - 1, s[s.len() - 1] ^ 1u8)
}

/// The coinbase's first input with one more witness item, a single zero byte.
pub open spec fn with_extra_witness_item(txs: Seq<TxView>) -> Seq<TxView> {
    let cb = txs[0];
    let input = TxInView { witness: cb.input[0].witness.push(seq![0u8]), ..cb.input[0] };
    txs.update(0, TxView { input: cb.input.update(0, input), ..cb })
}

/// The transactions after a rule's change, before anything is recomputed.
pub open spec fn mutated_txs(rule: MutatedBlockError, txs: Seq<TxView>) -> Seq<TxView> {
    match rule {
        MutatedBlockError::BadWitnessNonceSize => with_extra_witness_item(txs),
        MutatedBlockError::BadWitnessMerkleMatch => txs.update(
            0,
            with_first_script(txs[0], flip_last_bit(txs[0].output[0].script_pubkey)),
        ),
        MutatedBlockError::UnexpectedWitness => txs.update(
            0,
            with_first_script(txs[0], seq![OP_RETURN]),
        ),
        _ => txs,
    }
}

/// The extra transactions of the duplicate rule: the first two, the second twice.
pub open spec fn duplicated_extra(extra: Seq<TxView>) -> Seq<TxView> {
    seq![extra[0], extra[1], extra[1]]
}

impl MutatedBlockError {
    /// The rejection reason that a node gives for a block breaking this rule.
    pub fn as_str(&self) -> (r: &'static str)
        ensures
            r@ == rejection_tag(*self),
    {
        match self {
            MutatedBlockError::BadTxnMrklRoot => "bad-txnmrklroot",
            MutatedBlockError::BadTxnsDuplicate => "bad-txns-duplicate",
            MutatedBlockError::BadWitnessNonceSize => "bad-witness-nonce-size",
            MutatedBlockError::BadWitnessMerkleMatch => "bad-witness-merkle-match",
            MutatedBlockError::UnexpectedWitness => "unexpected-witness",
        }
    }

    /// Whether the merkle root is computed again after the change.
    pub fn recomputes_merkle_root(&self) -> (r: bool)
        ensures
            r == !(*self is BadTxnMrklRoot),
    {
        !matches!(self, MutatedBlockError::BadTxnMrklRoot)
    }

    /// Whether the proof of work is searched again after the change.
    pub fn recomputes_pow(&self) -> (r: bool)
        ensures
            r == !(*self is BadTxnMrklRoot),
    {
        !matches!(self, MutatedBlockError::BadTxnMrklRoot)
    }
}

/// Assembling with two extra transactions, and again with the second of them
/// appended once more, gives the same merkle root: the witness commitment is
/// the same, and both lists pair their last id with itself.
pub proof fn lemma_duplicate_assembly_same_root(height: u32, a: TxView, b: TxView)
    ensures
        txs_merkle_root(assembled_txs(height, seq![a, b, b])) == txs_merkle_root(
            assembled_txs(height, seq![a, b]),
        ),
{
    let x = seq![coinbase_of(height)] + seq![a, b];
    let y = seq![coinbase_of(height)] + seq![a, b, b];
    assert(y =~= x.push(x.last()));
    assert(witness_ids(y) =~= witness_ids(x).push(witness_ids(x).last()));
    lemma_duplicate_last_same_root(witness_ids(x));
    assert(commitment_hash(y) == commitment_hash(x));
    let cx = committed(x);
    let cy = committed(y);
    assert(cy =~= cx.push(cx.last()));
    assert(txids(cy) =~= txids(cx).push(txids(cx).last()));
    lemma_duplicate_last_same_root(txids(cx));
}

/// What a mutation returns from resolved fields and extra transactions.
pub open spec fn mutation_outcome(
    rule: MutatedBlockError,
    f: HeaderFields,
    extra: Seq<TxView>,
    r: Result<Block, BlockError>,
) -> bool {
    let base = assembled_base(f, extra);
    &&& r is Err ==> r == Err::<Block, BlockError>(BlockError::ProofOfWorkExhausted)
    &&& match rule {
        MutatedBlockError::BadTxnMrklRoot => {
            &&& r is Ok <==> !no_working_nonce(base)
            &&& r is Ok ==> {
                let m = r->Ok_0@;
                &&& m.txdata == assembled_txs(f.height, extra)
                &&& m.header.merkle_root == flip_first_bit(txs_merkle_root(m.txdata))
                &&& mined_from(
                    HeaderView { merkle_root: txs_merkle_root(m.txdata), ..m.header },
                    base,
                )
            }
        },
        MutatedBlockError::BadTxnsDuplicate => {
            let dup = assembled_base(f, duplicated_extra(extra));
            &&& r is Ok <==> !no_working_nonce(dup)
            &&& r is Ok ==> {
                let m = r->Ok_0@;
                &&& m.txdata == assembled_txs(f.height, duplicated_extra(extra))
                &&& mined_from(m.header, dup)
                &&& m.header.merkle_root == txs_merkle_root(
                    assembled_txs(f.height, seq![extra[0], extra[1]]),
                )
            }
        },
        _ => {
            let txs = mutated_txs(rule, assembled_txs(f.height, extra));
            &&& r is Ok <==> !no_working_nonce(base) && !no_working_nonce(unmined_header(f, txs))
            &&& r is Ok ==> r->Ok_0@.txdata == txs && mined_from(
                r->Ok_0@.header,
                unmined_header(f, txs),
            )
        },
    }
}

/// Whether a rule lacks the transactions it needs: the duplicate rule needs
/// two extra transactions.
pub open spec fn lacks_transactions(rule: MutatedBlockError, n_extra: nat) -> bool {
    rule is BadTxnsDuplicate && n_extra < 2
}

impl MutatedBlockError {
    /// Applies this rule's change to the coinbase of an assembled block.
    fn change_coinbase(&self, block: &mut Block)
        requires
            !(*self is BadTxnMrklRoot),
            !(*self is BadTxnsDuplicate),
            old(block)@.txdata.len() >= 1,
            old(block)@.txdata[0].input.len() >= 1,
            old(block)@.txdata[0].output.len() >= 1,
            old(block)@.txdata[0].output[0].script_pubkey.len() >= 1,
        ensures
            final(block)@.header == old(block)@.header,
            final(block)@.txdata == mutated_txs(*self, old(block)@.txdata),
    {
        let ghost before = block.txdata@;
        assert(block.txdata@[0]@ == block@.txdata[0]);
        match self {
            MutatedBlockError::BadWitnessNonceSize => {
                let mut item: Vec<u8> = Vec::new();
                item.push(0u8);
                block.txdata[0].input[0].witness.push(item);
                assert(block.txdata@[0]@.input[0].witness =~= before[0]@.input[0].witness.push(seq![0u8]));
                assert(block.txdata@[0]@.input =~= mutated_txs(*self, txs_view(before))[0].input);
            },
            MutatedBlockError::BadWitnessMerkleMatch => {
                let n = block.txdata[0].output[0].script_pubkey.len();
                let last = block.txdata[0].output[0].script_pubkey[n - 1];
                block.txdata[0].output[0].script_pubkey[n - 1] = last ^ 1u8;
                assert(block.txdata@[0]@.output[0].script_pubkey =~= flip_last_bit(before[0]@.output[0].script_pubkey));
                assert(block.txdata@[0]@.output =~= mutated_txs(*self, txs_view(before))[0].output);
            },
            _ => {
                let mut script: Vec<u8> = Vec::new();
                script.push(OP_RETURN);
                block.txdata[0].output[0].script_pubkey = script;
                assert(block.txdata@[0]@.output =~= mutated_txs(*self, txs_view(before))[0].output);
            },
        }
        assert(forall|k: int| 1 <= k < block.txdata@.len() ==> block.txdata@[k] == before[k]);
        assert(block@.txdata =~= mutated_txs(*self, txs_view(before)));
    }

    /// Builds a block that breaks this rule and no other. The rules but the
    /// duplicate one assemble a valid block from `extra_txs` and change it:
    /// the merkle-root rule flips the lowest bit of the header's merkle root
    /// and keeps the rest; the witness rules change the coinbase, then set
    /// the merkle root and mine again. The duplicate rule assembles from the
    /// first two extra transactions with the second repeated at the end, and
    /// fails where fewer than two are given.
    pub fn create_mutated_block(
        &self,
        explicit: &BlockTemplate,
        template: &BlockTemplate,
        chain: &ChainState,
        now: u64,
        extra_txs: Vec<Transaction>,
    ) -> (r: Result<Block, BlockError>)
        ensures
            lacks_transactions(*self, extra_txs@.len()) ==> r == Err::<Block, BlockError>(
                BlockError::MutationPrecondition,
            ),
            !lacks_transactions(*self, extra_txs@.len()) && !template_valid(
                *explicit,
                *template,
                *chain,
                now,
            ) ==> r == Err::<Block, BlockError>(BlockError::InvalidTemplateField),
            !lacks_transactions(*self, extra_txs@.len()) && template_valid(
                *explicit,
                *template,
                *chain,
                now,
            ) ==> mutation_outcome(
                *self,
                resolved_fields(*explicit, *template, *chain, now),
                txs_view(extra_txs@),
                r,
            ),
    {
        let ghost extra = txs_view(extra_txs@);
        if matches!(self, MutatedBlockError::BadTxnsDuplicate) && extra_txs.len() < 2 {
            return Err(BlockError::MutationPrecondition);
        }
        let fields = match resolve_template(explicit, template, chain, now) {
            Ok(f) => f,
            Err(e) => return Err(e),
        };
        match self {
            MutatedBlockError::BadTxnsDuplicate => {
                let mut txs: Vec<Transaction> = Vec::new();
                txs.push(extra_txs[0].copy());
                txs.push(extra_txs[1].copy());
                txs.push(extra_txs[1].copy());
                assert(txs_view(txs@) =~= duplicated_extra(extra));
                proof {
                    lemma_duplicate_assembly_same_root(fields.height, extra[0], extra[1]);
                }
                assemble_block(&fields, txs)
            },
            MutatedBlockError::BadTxnMrklRoot => {
                let mut block = match assemble_block(&fields, extra_txs) {
                    Ok(b) => b,
                    Err(e) => return Err(e),
                };
                let ghost valid = block@;
                let first = block.header.merkle_root[0];
                block.header.merkle_root[0] = first ^ 1u8;
                assert(block@.header.merkle_root =~= flip_first_bit(valid.header.merkle_root));
                assert(HeaderView { merkle_root: txs_merkle_root(block@.txdata), ..block@.header }
                    == valid.header);
                Ok(block)
            },
            _ => {
                let mut block = match assemble_block(&fields, extra_txs) {
                    Ok(b) => b,
                    Err(e) => return Err(e),
                };
                self.change_coinbase(&mut block);
                assert(block@.txdata.len() == block.txdata@.len());
                update_merkle_root(&mut block);
                match mine_block(&mut block) {
                    Ok(()) => Ok(block),
                    Err(e) => Err(e),
                }
            },
        }
    }
}

} // verus!
