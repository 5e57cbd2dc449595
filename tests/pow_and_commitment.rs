use regtest_forge::assemble::REGTEST_DIFFICULTY;
use regtest_forge::coinbase::create_coinbase;
use regtest_forge::commitment::prepare_commitment;
use regtest_forge::encode::header_encoding;
use regtest_forge::error::BlockError;
use regtest_forge::pow::{mine_header, validate_pow};
use regtest_forge::types::{Header, Transaction};

fn header(nonce: u32) -> Header {
    Header {
        version: 4,
        prev_blockhash: [0x11; 32],
        merkle_root: [0x22; 32],
        time: 1_700_000_123,
        bits: REGTEST_DIFFICULTY,
        nonce,
    }
}

fn bitcoin_accepts(h: &Header) -> bool {
    let parsed: bitcoin::block::Header = bitcoin::consensus::deserialize(&header_encoding(h)).unwrap();
    parsed.validate_pow(parsed.target()).is_ok()
}

#[test]
fn pow_check_agrees_with_bitcoin() {
    let mut seen_pass = false;
    let mut seen_fail = false;
    for nonce in 0..32u32 {
        let h = header(nonce);
        let ours = validate_pow(&h);
        assert_eq!(ours, bitcoin_accepts(&h));
        seen_pass |= ours;
        seen_fail |= !ours;
    }
    assert!(seen_pass && seen_fail);
}

#[test]
fn mining_picks_least_working_nonce() {
    let mut h = header(77);
    assert_eq!(mine_header(&mut h), Ok(()));
    assert!(validate_pow(&h));
    for nonce in 0..h.nonce {
        assert!(!validate_pow(&header(nonce)));
    }
    assert_eq!(h, header(h.nonce));
}

#[test]
fn commitment_needs_coinbase_witness() {
    let mut empty: Vec<Transaction> = Vec::new();
    assert_eq!(prepare_commitment(&mut empty), Err(BlockError::CommitmentComputationError));
    let mut cb = create_coinbase(5);
    cb.input[0].witness.clear();
    let mut txs = vec![cb.clone()];
    assert_eq!(prepare_commitment(&mut txs), Err(BlockError::CommitmentComputationError));
    assert_eq!(txs, vec![cb]);
    let mut short = create_coinbase(5);
    short.input[0].witness[0] = vec![0u8; 31];
    let mut txs = vec![short];
    assert_eq!(prepare_commitment(&mut txs), Err(BlockError::CommitmentComputationError));
}

#[test]
fn commitment_script_layout() {
    let mut txs = vec![create_coinbase(5)];
    assert_eq!(prepare_commitment(&mut txs), Ok(()));
    let script = &txs[0].output[0].script_pubkey;
    assert_eq!(script.len(), 38);
    assert_eq!(script[..6], [0x6a, 0x24, 0xaa, 0x21, 0xa9, 0xed]);
    assert_eq!(txs[0].input[0].witness, vec![vec![0u8; 32]]);
}
