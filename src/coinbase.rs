//! The coinbase transaction: height script, block subsidy and the witness
//! reserved value.
use vstd::prelude::*;

use crate::types::{OutPoint, Transaction, TxIn, TxInView, TxOut, TxOutView, TxView};

verus! {

/// The subsidy of the first blocks, in satoshis (regtest: 50 coins).
pub const INITIAL_SUBSIDY: u64 = 5_000_000_000;

/// The number of blocks between two halvings of the subsidy (regtest).
pub const HALVING_INTERVAL: u32 = 150;

/// The script opcode that marks an output unspendable.
pub const OP_RETURN: u8 = 0x6a;

/// The script opcode that pushes the number one.
pub const OP_TRUE: u8 = 0x51;

/// The block subsidy at a height: the initial subsidy shifted right once per
/// halving interval passed, zero once the shift reaches the width of the value.
pub open spec fn subsidy(height: u32) -> u64 {
    let halvings = height / HALVING_INTERVAL;
    if halvings >= 64 {
        0
    } else {
        INITIAL_SUBSIDY >> halvings
    }
}

/// The little-endian bytes of a number, with no trailing zero byte.
pub open spec fn num_le(n: nat) -> Seq<u8>
    decreases n,
{
    if n == 0 {
        Seq::empty()
    } else {
        seq![(n % 256) as u8] + num_le(n / 256)
    }
}

/// The minimal script encoding of a non-negative number: its little-endian
/// bytes, with a zero byte added where the top bit would read as a sign.
pub open spec fn script_num(n: nat) -> Seq<u8> {
    let b = num_le(n);
    if b.len() > 0 && b.last() >= 0x80 {
        b.push(0)
    } else {
        b
    }
}

/// The script that pushes a non-negative number: a dedicated opcode for 0
/// to 16, otherwise a direct push of its minimal encoding.
pub open spec fn push_int_bytes(n: nat) -> Seq<u8> {
    if n == 0 {
        seq![0u8]
    } else if n <= 16 {
        seq![(0x50 + n) as u8]
    } else {
        seq![script_num(n).len() as u8] + script_num(n)
    }
}

/// Relies on `bitcoin::blockdata::script::Builder::push_int`: the script that
/// pushes `n`, in the minimal form.
#[verifier::external_body]
fn push_int_script(n: u32) -> (r: Vec<u8>)
    ensures
        r@ == push_int_bytes(n as nat),
{
    bitcoin::blockdata::script::Builder::new().push_int(n as i64).into_script().into_bytes()
}

/// The coinbase input script: the height, followed by `OP_TRUE` for heights
/// up to 16 so that the script is at least two bytes long.
pub open spec fn coinbase_script_sig(height: u32) -> Seq<u8> {
    if height <= 16 {
        push_int_bytes(height as nat).push(OP_TRUE)
    } else {
        push_int_bytes(height as nat)
    }
}

pub open spec fn zeros32() -> Seq<u8> {
    Seq::new(32, |i: int| 0u8)
}

/// The coinbase transaction of a block at `height`, before its witness
/// commitment is written.
pub open spec fn coinbase_of(height: u32) -> TxView {
    TxView {
        version: 1,
        lock_time: height,
        input: seq![
            TxInView {
                prev_txid: zeros32(),
                prev_vout: 0xFFFF_FFFF,
                script_sig: coinbase_script_sig(height),
                sequence: 0xFFFF_FFFF,
                witness: seq![zeros32()],
            },
        ],
        output: seq![TxOutView { value: subsidy(height), script_pubkey: seq![OP_RETURN] }],
    }
}

/// The block subsidy at `height`, in satoshis.
pub fn calculate_subsidy(height: u32) -> (r: u64)
    ensures
        r == subsidy(height),
{
    let halvings = height / HALVING_INTERVAL;
    if halvings >= 64 {
        0
    } else {
        INITIAL_SUBSIDY >> halvings
    }
}

/// The coinbase transaction for a block at `height`: one input with a null
/// previous output, the height script and a 32-byte zero witness item; one
/// unspendable output that carries the subsidy.
pub fn create_coinbase(height: u32) -> (r: Transaction)
    ensures
        r@ == coinbase_of(height),
        r@.output[0].value == subsidy(height),
{
    let mut script_sig = push_int_script(height);
    if height <= 16 {
        script_sig.push(OP_TRUE);
    }
    let mut witness: Vec<Vec<u8>> = Vec::new();
    witness.push(vec![0u8; 32]);
    assert(witness@[0]@ =~= zeros32());
    let input = TxIn {
        previous_output: OutPoint { txid: [0u8; 32], vout: 0xFFFF_FFFF },
        script_sig,
        sequence: 0xFFFF_FFFF,
        witness,
    };
    let mut script_pubkey: Vec<u8> = Vec::new();
    script_pubkey.push(OP_RETURN);
    let output = TxOut { value: calculate_subsidy(height), script_pubkey };
    let mut inputs: Vec<TxIn> = Vec::new();
    inputs.push(input);
    let mut outputs: Vec<TxOut> = Vec::new();
    outputs.push(output);
    let tx = Transaction { version: 1, lock_time: height, input: inputs, output: outputs };
    assert(tx@.input[0].witness =~= seq![zeros32()]);
    assert(tx@.input[0].script_sig =~= coinbase_script_sig(height));
    assert(tx@.output[0].script_pubkey =~= seq![OP_RETURN]);
    assert(tx@.input[0].prev_txid =~= zeros32());
    assert(tx@.input =~= coinbase_of(height).input);
    assert(tx@.output =~= coinbase_of(height).output);
    tx
}

} // verus!
