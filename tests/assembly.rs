use regtest_forge::assemble::{create_block, BlockTemplate, ChainState, REGTEST_DIFFICULTY};
use regtest_forge::coinbase::{calculate_subsidy, create_coinbase};
use regtest_forge::decode::parse_block;
use regtest_forge::encode::{block_encoding, compute_txid, compute_wtxid, tx_encoding};
use regtest_forge::error::BlockError;
use regtest_forge::hexout::block_hex;
use regtest_forge::merkle::compute_merkle_root;
use regtest_forge::pow::validate_pow;
use regtest_forge::types::{Block, OutPoint, Transaction, TxIn, TxOut};

fn spend(seed: u8, with_witness: bool) -> Transaction {
    let witness = if with_witness { vec![vec![seed; 71], vec![2u8; 33]] } else { Vec::new() };
    Transaction {
        version: 2,
        lock_time: 0,
        input: vec![TxIn {
            previous_output: OutPoint { txid: [seed; 32], vout: seed as u32 },
            script_sig: Vec::new(),
            sequence: 0xFFFF_FFFD,
            witness,
        }],
        output: vec![TxOut { value: 4_999_990_000, script_pubkey: vec![0x00, 0x14, seed, seed, seed] }],
    }
}

fn chain() -> ChainState {
    ChainState { height: 0, best_block_hash: [7u8; 32], median_time: 1_700_000_000 }
}

fn assemble(extra: Vec<Transaction>) -> Block {
    create_block(&BlockTemplate::empty(), &BlockTemplate::empty(), &chain(), 0, extra).unwrap()
}

fn as_bitcoin(block: &Block) -> bitcoin::Block {
    bitcoin::consensus::deserialize(&block_encoding(block)).unwrap()
}

fn txid_bytes(id: bitcoin::Txid) -> [u8; 32] {
    <bitcoin::Txid as bitcoin::hashes::Hash>::to_byte_array(id)
}

#[test]
fn subsidy_at_height_one() {
    assert_eq!(calculate_subsidy(1), 5_000_000_000);
    assert_eq!(create_coinbase(1).output[0].value, 5_000_000_000);
}

#[test]
fn subsidy_after_one_halving() {
    assert_eq!(calculate_subsidy(151), 2_500_000_000);
    assert_eq!(create_coinbase(151).output[0].value, 2_500_000_000);
}

#[test]
fn subsidy_reaches_zero() {
    assert_eq!(calculate_subsidy(149), 5_000_000_000);
    assert_eq!(calculate_subsidy(150 * 33), 0);
    assert_eq!(calculate_subsidy(150 * 64), 0);
    assert_eq!(calculate_subsidy(u32::MAX), 0);
}

#[test]
fn coinbase_height_scripts() {
    assert_eq!(create_coinbase(0).input[0].script_sig, vec![0x00, 0x51]);
    assert_eq!(create_coinbase(1).input[0].script_sig, vec![0x51, 0x51]);
    assert_eq!(create_coinbase(16).input[0].script_sig, vec![0x60, 0x51]);
    assert_eq!(create_coinbase(17).input[0].script_sig, vec![0x01, 0x11]);
    assert_eq!(create_coinbase(128).input[0].script_sig, vec![0x02, 0x80, 0x00]);
    assert_eq!(create_coinbase(500).input[0].script_sig, vec![0x02, 0xF4, 0x01]);
}

#[test]
fn coinbase_shape() {
    let cb = create_coinbase(200);
    assert_eq!(cb.version, 1);
    assert_eq!(cb.lock_time, 200);
    assert_eq!(cb.input.len(), 1);
    assert_eq!(cb.input[0].previous_output, OutPoint { txid: [0u8; 32], vout: 0xFFFF_FFFF });
    assert_eq!(cb.input[0].sequence, 0xFFFF_FFFF);
    assert_eq!(cb.input[0].witness, vec![vec![0u8; 32]]);
    assert_eq!(cb.output.len(), 1);
    assert_eq!(cb.output[0].script_pubkey, vec![0x6a]);
    assert_eq!(cb.output[0].value, 2_500_000_000);
}

#[test]
fn transaction_encoding_matches_bitcoin() {
    for tx in [spend(3, true), spend(4, false), create_coinbase(300)] {
        let bytes = tx_encoding(&tx);
        let parsed: bitcoin::Transaction = bitcoin::consensus::deserialize(&bytes).unwrap();
        assert_eq!(bitcoin::consensus::serialize(&parsed), bytes);
        assert_eq!(txid_bytes(parsed.compute_txid()), compute_txid(&tx));
        assert_eq!(
            <bitcoin::Wtxid as bitcoin::hashes::Hash>::to_byte_array(parsed.compute_wtxid()),
            compute_wtxid(&tx)
        );
    }
}

#[test]
fn witness_changes_wtxid_not_txid() {
    let with = spend(5, true);
    let without = spend(5, false);
    assert_eq!(compute_txid(&with), compute_txid(&without));
    assert_ne!(compute_wtxid(&with), compute_wtxid(&without));
    assert_eq!(compute_txid(&without), compute_wtxid(&without));
}

#[test]
fn merkle_root_of_single_id_is_the_id() {
    let id = [9u8; 32];
    assert_eq!(compute_merkle_root(&vec![id]), id);
}

#[test]
fn merkle_root_duplicate_last_of_odd_list() {
    let ids = vec![[1u8; 32], [2u8; 32], [3u8; 32]];
    let mut longer = ids.clone();
    longer.push([3u8; 32]);
    assert_eq!(compute_merkle_root(&ids), compute_merkle_root(&longer));
    let five = vec![[1u8; 32], [2u8; 32], [3u8; 32], [4u8; 32], [5u8; 32]];
    let mut six = five.clone();
    six.push([5u8; 32]);
    assert_eq!(compute_merkle_root(&five), compute_merkle_root(&six));
}

#[test]
fn merkle_root_single_duplicated_differs() {
    let id = [9u8; 32];
    assert_ne!(compute_merkle_root(&vec![id]), compute_merkle_root(&vec![id, id]));
}

#[test]
fn merkle_root_matches_bitcoin() {
    for n in 1..8u8 {
        let ids: Vec<[u8; 32]> = (0..n).map(|i| [i + 1; 32]).collect();
        let expected = bitcoin::merkle_tree::calculate_root(
            ids.iter().map(|b| <bitcoin::Txid as bitcoin::hashes::Hash>::from_byte_array(*b)),
        )
        .unwrap();
        assert_eq!(compute_merkle_root(&ids), txid_bytes(expected));
    }
}

#[test]
fn assembled_block_is_valid_for_bitcoin() {
    let block = assemble(vec![spend(1, true), spend(2, false)]);
    let parsed = as_bitcoin(&block);
    assert!(parsed.check_merkle_root());
    assert!(parsed.check_witness_commitment());
    assert!(parsed.header.validate_pow(parsed.header.target()).is_ok());
    assert!(validate_pow(&block.header));
    assert_eq!(block.txdata.len(), 3);
    assert_eq!(block.txdata[1], spend(1, true));
    assert_eq!(block.txdata[2], spend(2, false));
}

#[test]
fn assembled_merkle_root_is_root_of_txids() {
    let block = assemble(vec![spend(1, true), spend(2, true), spend(3, false)]);
    let ids: Vec<[u8; 32]> = block.txdata.iter().map(compute_txid).collect();
    assert_eq!(block.header.merkle_root, compute_merkle_root(&ids));
}

#[test]
fn assembled_block_round_trips() {
    let block = assemble(vec![spend(1, true), spend(2, false)]);
    let bytes = block_encoding(&block);
    let parsed = as_bitcoin(&block);
    assert_eq!(bitcoin::consensus::serialize(&parsed), bytes);
    assert_eq!(parsed.header.version.to_consensus(), block.header.version);
    assert_eq!(<bitcoin::TxMerkleNode as bitcoin::hashes::Hash>::to_byte_array(parsed.header.merkle_root), block.header.merkle_root);
    assert_eq!(parsed.header.time, block.header.time);
    assert_eq!(parsed.header.bits.to_consensus(), block.header.bits);
    assert_eq!(parsed.header.nonce, block.header.nonce);
    assert_eq!(parsed.txdata.len(), block.txdata.len());
    for (p, t) in parsed.txdata.iter().zip(block.txdata.iter()) {
        assert_eq!(bitcoin::consensus::serialize(p), tx_encoding(t));
    }
}

#[test]
fn default_fields_follow_chain_state() {
    let block = create_block(&BlockTemplate::empty(), &BlockTemplate::empty(), &chain(), 5, Vec::new()).unwrap();
    assert_eq!(block.header.version, 4);
    assert_eq!(block.header.prev_blockhash, [7u8; 32]);
    assert_eq!(block.header.time, 1_700_000_001);
    assert_eq!(block.header.bits, REGTEST_DIFFICULTY);
    assert_eq!(block.txdata.len(), 1);
    assert_eq!(block.txdata[0].lock_time, 1);
    let later = create_block(&BlockTemplate::empty(), &BlockTemplate::empty(), &chain(), 1_800_000_000, Vec::new()).unwrap();
    assert_eq!(later.header.time, 1_800_000_000);
}

#[test]
fn explicit_fields_beat_template_fields() {
    let template = BlockTemplate { version: Some(0x2000_0000), prev_blockhash: Some([8u8; 32]), time: Some(1_750_000_000), height: Some(300), bits: None };
    let explicit = BlockTemplate { version: None, prev_blockhash: Some([9u8; 32]), time: None, height: Some(151), bits: None };
    let block = create_block(&explicit, &template, &chain(), 0, Vec::new()).unwrap();
    assert_eq!(block.header.version, 0x2000_0000);
    assert_eq!(block.header.prev_blockhash, [9u8; 32]);
    assert_eq!(block.header.time, 1_750_000_000);
    assert_eq!(block.txdata[0].lock_time, 151);
    assert_eq!(block.txdata[0].output[0].value, 2_500_000_000);
}

#[test]
fn malformed_template_fields_are_rejected() {
    let e = BlockTemplate::empty();
    let high = BlockTemplate { height: Some(u32::MAX as u64 + 1), ..BlockTemplate::empty() };
    assert_eq!(create_block(&high, &e, &chain(), 0, Vec::new()), Err(BlockError::InvalidTemplateField));
    let late = BlockTemplate { time: Some(1u64 << 40), ..BlockTemplate::empty() };
    assert_eq!(create_block(&e, &late, &chain(), 0, Vec::new()), Err(BlockError::InvalidTemplateField));
    let negative = BlockTemplate { bits: Some(0x2080_0000), ..BlockTemplate::empty() };
    assert_eq!(create_block(&negative, &e, &chain(), 0, Vec::new()), Err(BlockError::InvalidTemplateField));
    let huge = BlockTemplate { bits: Some(0x2100_0001), ..BlockTemplate::empty() };
    assert_eq!(create_block(&e, &huge, &chain(), 0, Vec::new()), Err(BlockError::InvalidTemplateField));
    let tip = ChainState { height: u32::MAX as u64, ..chain() };
    assert_eq!(create_block(&e, &e, &tip, 0, Vec::new()), Err(BlockError::InvalidTemplateField));
}

#[test]
fn block_hex_matches_bitcoin_encoding() {
    let block = assemble(vec![spend(6, true)]);
    let parsed = as_bitcoin(&block);
    let text = block_hex(&block);
    assert_eq!(text, hex::encode(bitcoin::consensus::serialize(&parsed)));
    assert_eq!(text.len(), 2 * block_encoding(&block).len());
    assert!(text.starts_with("04000000"));
}

#[test]
fn decode_returns_encoded_block() {
    let block = assemble(vec![spend(1, true), spend(2, false), spend(3, true)]);
    let decoded = parse_block(&block_encoding(&block)).unwrap();
    assert_eq!(decoded, block);
}

#[test]
fn decode_refuses_trailing_and_truncated_bytes() {
    let block = assemble(vec![spend(1, true)]);
    let mut bytes = block_encoding(&block);
    bytes.push(0);
    assert_eq!(parse_block(&bytes), None);
    bytes.truncate(bytes.len() - 2);
    assert_eq!(parse_block(&bytes), None);
    assert_eq!(parse_block(&[]), None);
}

#[test]
fn decode_reads_bitcoin_encoding() {
    let block = assemble(vec![spend(4, true), spend(5, false)]);
    let bytes = bitcoin::consensus::serialize(&as_bitcoin(&block));
    assert_eq!(parse_block(&bytes), Some(block));
}
