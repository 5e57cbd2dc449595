use regtest_forge::assemble::{create_block, BlockTemplate, ChainState};
use regtest_forge::encode::{block_encoding, compute_txid};
use regtest_forge::error::BlockError;
use regtest_forge::merkle::compute_merkle_root;
use regtest_forge::mutation::MutatedBlockError;
use regtest_forge::pow::validate_pow;
use regtest_forge::types::{Block, OutPoint, Transaction, TxIn, TxOut};

fn spend(seed: u8) -> Transaction {
    Transaction {
        version: 2,
        lock_time: 0,
        input: vec![TxIn {
            previous_output: OutPoint { txid: [seed; 32], vout: 1 },
            script_sig: Vec::new(),
            sequence: 0xFFFF_FFFD,
            witness: vec![vec![seed; 72], vec![3u8; 33]],
        }],
        output: vec![TxOut { value: 4_999_999_000, script_pubkey: vec![0x00, 0x14, seed] }],
    }
}

fn chain() -> ChainState {
    ChainState { height: 120, best_block_hash: [5u8; 32], median_time: 1_700_000_000 }
}

fn valid(extra: Vec<Transaction>) -> Block {
    create_block(&BlockTemplate::empty(), &BlockTemplate::empty(), &chain(), 0, extra).unwrap()
}

fn mutate(rule: MutatedBlockError, extra: Vec<Transaction>) -> Result<Block, BlockError> {
    rule.create_mutated_block(&BlockTemplate::empty(), &BlockTemplate::empty(), &chain(), 0, extra)
}

fn root_of(block: &Block) -> [u8; 32] {
    let ids: Vec<[u8; 32]> = block.txdata.iter().map(compute_txid).collect();
    compute_merkle_root(&ids)
}

fn as_bitcoin(block: &Block) -> bitcoin::Block {
    bitcoin::consensus::deserialize(&block_encoding(block)).unwrap()
}

#[test]
fn rejection_tags() {
    assert_eq!(MutatedBlockError::BadTxnMrklRoot.as_str(), "bad-txnmrklroot");
    assert_eq!(MutatedBlockError::BadTxnsDuplicate.as_str(), "bad-txns-duplicate");
    assert_eq!(MutatedBlockError::BadWitnessNonceSize.as_str(), "bad-witness-nonce-size");
    assert_eq!(MutatedBlockError::BadWitnessMerkleMatch.as_str(), "bad-witness-merkle-match");
    assert_eq!(MutatedBlockError::UnexpectedWitness.as_str(), "unexpected-witness");
}

#[test]
fn recompute_flags() {
    assert!(!MutatedBlockError::BadTxnMrklRoot.recomputes_merkle_root());
    assert!(!MutatedBlockError::BadTxnMrklRoot.recomputes_pow());
    for rule in [
        MutatedBlockError::BadTxnsDuplicate,
        MutatedBlockError::BadWitnessNonceSize,
        MutatedBlockError::BadWitnessMerkleMatch,
        MutatedBlockError::UnexpectedWitness,
    ] {
        assert!(rule.recomputes_merkle_root());
        assert!(rule.recomputes_pow());
    }
}

#[test]
fn duplicate_keeps_merkle_root() {
    let a = spend(1);
    let b = spend(2);
    let plain = valid(vec![a.clone(), b.clone()]);
    let dup = mutate(MutatedBlockError::BadTxnsDuplicate, vec![a.clone(), b.clone()]).unwrap();
    assert_eq!(dup.txdata.len(), 4);
    assert_eq!(dup.txdata[1], a);
    assert_eq!(dup.txdata[2], b);
    assert_eq!(dup.txdata[3], b);
    assert_eq!(dup.header.merkle_root, plain.header.merkle_root);
    assert_eq!(root_of(&dup), root_of(&plain));
    assert_eq!(dup.txdata[0], plain.txdata[0]);
    let parsed = as_bitcoin(&dup);
    assert!(parsed.check_merkle_root());
    assert!(validate_pow(&dup.header));
}

#[test]
fn duplicate_needs_two_transactions() {
    assert_eq!(mutate(MutatedBlockError::BadTxnsDuplicate, vec![spend(1)]), Err(BlockError::MutationPrecondition));
    assert_eq!(mutate(MutatedBlockError::BadTxnsDuplicate, Vec::new()), Err(BlockError::MutationPrecondition));
}

#[test]
fn duplicate_uses_first_two_transactions() {
    let dup = mutate(MutatedBlockError::BadTxnsDuplicate, vec![spend(1), spend(2), spend(3)]).unwrap();
    assert_eq!(dup.txdata.len(), 4);
    assert_eq!(dup.txdata[3], spend(2));
}

#[test]
fn merkle_root_flip_changes_one_bit() {
    let extra = vec![spend(4)];
    let good = valid(extra.clone());
    let bad = mutate(MutatedBlockError::BadTxnMrklRoot, extra).unwrap();
    let correct = root_of(&bad);
    assert_eq!(correct, good.header.merkle_root);
    assert_eq!(bad.header.merkle_root[0], correct[0] ^ 1);
    assert_eq!(bad.header.merkle_root[1..], correct[1..]);
    assert_eq!(bad.txdata, good.txdata);
    assert_eq!(bad.header.version, good.header.version);
    assert_eq!(bad.header.prev_blockhash, good.header.prev_blockhash);
    assert_eq!(bad.header.time, good.header.time);
    assert_eq!(bad.header.bits, good.header.bits);
    assert_eq!(bad.header.nonce, good.header.nonce);
    assert!(!as_bitcoin(&bad).check_merkle_root());
}

#[test]
fn witness_nonce_size_adds_a_witness_item() {
    let bad = mutate(MutatedBlockError::BadWitnessNonceSize, vec![spend(5)]).unwrap();
    assert_eq!(bad.txdata[0].input[0].witness, vec![vec![0u8; 32], vec![0u8]]);
    assert_eq!(bad.header.merkle_root, root_of(&bad));
    assert!(validate_pow(&bad.header));
    let parsed = as_bitcoin(&bad);
    assert!(parsed.check_merkle_root());
    assert!(!parsed.check_witness_commitment());
}

#[test]
fn witness_merkle_match_breaks_commitment() {
    let extra = vec![spend(6)];
    let good = valid(extra.clone());
    let bad = mutate(MutatedBlockError::BadWitnessMerkleMatch, extra).unwrap();
    let good_script = &good.txdata[0].output[0].script_pubkey;
    let bad_script = &bad.txdata[0].output[0].script_pubkey;
    assert_eq!(good_script.len(), 38);
    assert_eq!(bad_script.len(), 38);
    assert_eq!(bad_script[..37], good_script[..37]);
    assert_eq!(bad_script[37], good_script[37] ^ 1);
    assert_eq!(bad.header.merkle_root, root_of(&bad));
    assert!(validate_pow(&bad.header));
    let parsed = as_bitcoin(&bad);
    assert!(parsed.check_merkle_root());
    assert!(!parsed.check_witness_commitment());
    assert!(as_bitcoin(&good).check_witness_commitment());
}

#[test]
fn unexpected_witness_drops_commitment() {
    let bad = mutate(MutatedBlockError::UnexpectedWitness, vec![spend(7)]).unwrap();
    assert_eq!(bad.txdata[0].output[0].script_pubkey, vec![0x6a]);
    assert_eq!(bad.txdata[0].input[0].witness, vec![vec![0u8; 32]]);
    assert_eq!(bad.header.merkle_root, root_of(&bad));
    assert!(validate_pow(&bad.header));
    assert!(as_bitcoin(&bad).check_merkle_root());
}

#[test]
fn mutation_reports_invalid_template() {
    let bad_bits = BlockTemplate { bits: Some(0), ..BlockTemplate::empty() };
    let r = MutatedBlockError::UnexpectedWitness.create_mutated_block(&bad_bits, &BlockTemplate::empty(), &chain(), 0, vec![spend(1)]);
    assert_eq!(r, Err(BlockError::InvalidTemplateField));
}

#[test]
fn error_descriptions() {
    assert_eq!(BlockError::ProofOfWorkExhausted.describe(), "proof-of-work nonce space exhausted");
    assert_eq!(BlockError::MutationPrecondition.describe(), "mutation precondition not met");
}
