//! The consensus wire encoding of transactions, headers and blocks, and the
//! identifiers hashed from it.
use vstd::prelude::*;

use crate::hashing::{sha256d, sha256d_of};
use crate::merkle::append_bytes;
use crate::types::{bytes_views, Block, Header, HeaderView, Transaction, TxIn, TxInView, TxOut, TxOutView, TxView};

verus! {

pub open spec fn u16_le(v: u16) -> Seq<u8> {
    seq![(v % 256) as u8, (v / 256) as u8]
}

pub open spec fn u32_le(v: u32) -> Seq<u8> {
    seq![
        (v % 256) as u8,
        ((v / 0x100) % 256) as u8,
        ((v / 0x1_0000) % 256) as u8,
        (v / 0x100_0000) as u8,
    ]
}

pub open spec fn u64_le(v: u64) -> Seq<u8> {
    u32_le((v % 0x1_0000_0000) as u32) + u32_le((v / 0x1_0000_0000) as u32)
}

/// A signed 32-bit value in two's complement, little-endian.
pub open spec fn i32_le(v: i32) -> Seq<u8> {
    u32_le(
        if v >= 0 {
            v as u32
        } else {
            (v + 0x1_0000_0000) as u32
        },
    )
}

/// The variable-length encoding of a count.
pub open spec fn compact_size(n: nat) -> Seq<u8> {
    if n < 0xFD {
        seq![n as u8]
    } else if n <= 0xFFFF {
        seq![0xFDu8] + u16_le(n as u16)
    } else if n <= 0xFFFF_FFFF {
        seq![0xFEu8] + u32_le(n as u32)
    } else {
        seq![0xFFu8] + u64_le(n as u64)
    }
}

/// A byte string preceded by its length.
pub open spec fn var_bytes(b: Seq<u8>) -> Seq<u8> {
    compact_size(b.len()) + b
}

pub open spec fn txin_bytes(i: TxInView) -> Seq<u8> {
    i.prev_txid + u32_le(i.prev_vout) + var_bytes(i.script_sig) + u32_le(i.sequence)
}

pub open spec fn txout_bytes(o: TxOutView) -> Seq<u8> {
    u64_le(o.value) + var_bytes(o.script_pubkey)
}

pub open spec fn inputs_body(s: Seq<TxInView>) -> Seq<u8>
    decreases s.len(),
{
    if s.len() == 0 {
        Seq::empty()
    } else {
        inputs_body(s.drop_last()) + txin_bytes(s.last())
    }
}

pub open spec fn outputs_body(s: Seq<TxOutView>) -> Seq<u8>
    decreases s.len(),
{
    if s.len() == 0 {
        Seq::empty()
    } else {
        outputs_body(s.drop_last()) + txout_bytes(s.last())
    }
}

/// The items of a witness stack, each with its length.
pub open spec fn stack_body(s: Seq<Seq<u8>>) -> Seq<u8>
    decreases s.len(),
{
    if s.len() == 0 {
        Seq::empty()
    } else {
        stack_body(s.drop_last()) + var_bytes(s.last())
    }
}

pub open spec fn stack_bytes(s: Seq<Seq<u8>>) -> Seq<u8> {
    compact_size(s.len()) + stack_body(s)
}

/// The witness stacks of all inputs, in order.
pub open spec fn witnesses_body(s: Seq<TxInView>) -> Seq<u8>
    decreases s.len(),
{
    if s.len() == 0 {
        Seq::empty()
    } else {
        witnesses_body(s.drop_last()) + stack_bytes(s.last().witness)
    }
}

pub open spec fn inputs_bytes(s: Seq<TxInView>) -> Seq<u8> {
    compact_size(s.len()) + inputs_body(s)
}

pub open spec fn outputs_bytes(s: Seq<TxOutView>) -> Seq<u8> {
    compact_size(s.len()) + outputs_body(s)
}

/// Whether a transaction is written with the witness marker: some input has
/// witness items, or it has no inputs at all.
pub open spec fn uses_witness_encoding(t: TxView) -> bool {
    t.input.len() == 0 || exists|k: int| 0 <= k < t.input.len() && t.input[k].witness.len() > 0
}

/// The encoding without witness data, from which the transaction id is hashed.
pub open spec fn tx_base_bytes(t: TxView) -> Seq<u8> {
    i32_le(t.version) + inputs_bytes(t.input) + outputs_bytes(t.output) + u32_le(t.lock_time)
}

/// The full encoding, with witness data where the transaction uses it.
pub open spec fn tx_bytes(t: TxView) -> Seq<u8> {
    if uses_witness_encoding(t) {
        i32_le(t.version) + seq![0u8, 1u8] + inputs_bytes(t.input) + outputs_bytes(t.output)
            + witnesses_body(t.input) + u32_le(t.lock_time)
    } else {
        tx_base_bytes(t)
    }
}

pub open spec fn txid(t: TxView) -> Seq<u8> {
    sha256d_of(tx_base_bytes(t))
}

pub open spec fn wtxid(t: TxView) -> Seq<u8> {
    sha256d_of(tx_bytes(t))
}

pub open spec fn header_bytes(h: HeaderView) -> Seq<u8> {
    i32_le(h.version) + h.prev_blockhash + h.merkle_root + u32_le(h.time) + u32_le(h.bits)
        + u32_le(h.nonce)
}

pub open spec fn block_hash(h: HeaderView) -> Seq<u8> {
    sha256d_of(header_bytes(h))
}

pub open spec fn txs_body(s: Seq<TxView>) -> Seq<u8>
    decreases s.len(),
{
    if s.len() == 0 {
        Seq::empty()
    } else {
        txs_body(s.drop_last()) + tx_bytes(s.last())
    }
}

pub open spec fn block_bytes(h: HeaderView, txs: Seq<TxView>) -> Seq<u8> {
    header_bytes(h) + compact_size(txs.len()) + txs_body(txs)
}

fn put_u16(out: &mut Vec<u8>, v: u16)
    ensures
        final(out)@ == old(out)@ + u16_le(v),
{
    out.push((v % 256) as u8);
    out.push((v / 256) as u8);
    assert(final(out)@ =~= old(out)@ + u16_le(v));
}

fn put_u32(out: &mut Vec<u8>, v: u32)
    ensures
        final(out)@ == old(out)@ + u32_le(v),
{
    out.push((v % 256) as u8);
    out.push(((v / 0x100) % 256) as u8);
    out.push(((v / 0x1_0000) % 256) as u8);
    out.push((v / 0x100_0000) as u8);
    assert(final(out)@ =~= old(out)@ + u32_le(v));
}

fn put_u64(out: &mut Vec<u8>, v: u64)
    ensures
        final(out)@ == old(out)@ + u64_le(v),
{
    put_u32(out, (v % 0x1_0000_0000) as u32);
    put_u32(out, (v / 0x1_0000_0000) as u32);
    assert(final(out)@ =~= old(out)@ + u64_le(v));
}

fn put_i32(out: &mut Vec<u8>, v: i32)
    ensures
        final(out)@ == old(out)@ + i32_le(v),
{
    let u: u32 = if v >= 0 {
        v as u32
    } else {
        (v as i64 + 0x1_0000_0000i64) as u32
    };
    put_u32(out, u);
}

fn put_compact_size(out: &mut Vec<u8>, n: u64)
    ensures
        final(out)@ == old(out)@ + compact_size(n as nat),
{
    if n < 0xFD {
        out.push(n as u8);
        assert(final(out)@ =~= old(out)@ + compact_size(n as nat));
    } else if n <= 0xFFFF {
        out.push(0xFD);
        put_u16(out, n as u16);
        assert(final(out)@ =~= old(out)@ + compact_size(n as nat));
    } else if n <= 0xFFFF_FFFF {
        out.push(0xFE);
        put_u32(out, n as u32);
        assert(final(out)@ =~= old(out)@ + compact_size(n as nat));
    } else {
        out.push(0xFF);
        put_u64(out, n);
        assert(final(out)@ =~= old(out)@ + compact_size(n as nat));
    }
}

fn put_var_bytes(out: &mut Vec<u8>, b: &Vec<u8>)
    ensures
        final(out)@ == old(out)@ + var_bytes(b@),
{
    put_compact_size(out, b.len() as u64);
    append_bytes(out, b.as_slice());
    assert(final(out)@ =~= old(out)@ + var_bytes(b@));
}

fn put_txin(out: &mut Vec<u8>, i: &TxIn)
    ensures
        final(out)@ == old(out)@ + txin_bytes(i@),
{
    append_bytes(out, &i.previous_output.txid);
    put_u32(out, i.previous_output.vout);
    put_var_bytes(out, &i.script_sig);
    put_u32(out, i.sequence);
    assert(final(out)@ =~= old(out)@ + txin_bytes(i@));
}

fn put_txout(out: &mut Vec<u8>, o: &TxOut)
    ensures
        final(out)@ == old(out)@ + txout_bytes(o@),
{
    put_u64(out, o.value);
    put_var_bytes(out, &o.script_pubkey);
    assert(final(out)@ =~= old(out)@ + txout_bytes(o@));
}

fn put_inputs(out: &mut Vec<u8>, ins: &Vec<TxIn>)
    ensures
        final(out)@ == old(out)@ + inputs_bytes(ins@.map_values(|x: TxIn| x@)),
{
    let ghost views = ins@.map_values(|x: TxIn| x@);
    put_compact_size(out, ins.len() as u64);
    let ghost start = out@;
    let mut k: usize = 0;
    while k < ins.len()
        invariant
            k <= ins@.len(),
            views == ins@.map_values(|x: TxIn| x@),
            out@ == start + inputs_body(views.take(k as int)),
        decreases ins@.len() - k,
    {
        put_txin(out, &ins[k]);
        assert(views.take(k + 1).drop_last() =~= views.take(k as int));
        k += 1;
        assert(out@ =~= start + inputs_body(views.take(k as int)));
    }
    assert(views.take(k as int) =~= views);
    assert(final(out)@ =~= old(out)@ + inputs_bytes(views));
}

fn put_outputs(out: &mut Vec<u8>, outs: &Vec<TxOut>)
    ensures
        final(out)@ == old(out)@ + outputs_bytes(outs@.map_values(|x: TxOut| x@)),
{
    let ghost views = outs@.map_values(|x: TxOut| x@);
    put_compact_size(out, outs.len() as u64);
    let ghost start = out@;
    let mut k: usize = 0;
    while k < outs.len()
        invariant
            k <= outs@.len(),
            views == outs@.map_values(|x: TxOut| x@),
            out@ == start + outputs_body(views.take(k as int)),
        decreases outs@.len() - k,
    {
        put_txout(out, &outs[k]);
        assert(views.take(k + 1).drop_last() =~= views.take(k as int));
        k += 1;
        assert(out@ =~= start + outputs_body(views.take(k as int)));
    }
    assert(views.take(k as int) =~= views);
    assert(final(out)@ =~= old(out)@ + outputs_bytes(views));
}

fn put_stack(out: &mut Vec<u8>, w: &Vec<Vec<u8>>)
    ensures
        final(out)@ == old(out)@ + stack_bytes(bytes_views(w@)),
{
    let ghost views = bytes_views(w@);
    put_compact_size(out, w.len() as u64);
    let ghost start = out@;
    let mut k: usize = 0;
    while k < w.len()
        invariant
            k <= w@.len(),
            views == bytes_views(w@),
            out@ == start + stack_body(views.take(k as int)),
        decreases w@.len() - k,
    {
        put_var_bytes(out, &w[k]);
        assert(views.take(k + 1).drop_last() =~= views.take(k as int));
        k += 1;
        assert(out@ =~= start + stack_body(views.take(k as int)));
    }
    assert(views.take(k as int) =~= views);
    assert(final(out)@ =~= old(out)@ + stack_bytes(views));
}

fn put_witnesses(out: &mut Vec<u8>, ins: &Vec<TxIn>)
    ensures
        final(out)@ == old(out)@ + witnesses_body(ins@.map_values(|x: TxIn| x@)),
{
    let ghost views = ins@.map_values(|x: TxIn| x@);
    let ghost start = out@;
    let mut k: usize = 0;
    while k < ins.len()
        invariant
            k <= ins@.len(),
            views == ins@.map_values(|x: TxIn| x@),
            out@ == start + witnesses_body(views.take(k as int)),
        decreases ins@.len() - k,
    {
        put_stack(out, &ins[k].witness);
        assert(views.take(k + 1).drop_last() =~= views.take(k as int));
        k += 1;
        assert(out@ =~= start + witnesses_body(views.take(k as int)));
    }
    assert(views.take(k as int) =~= views);
}

/// Whether the transaction is written with the witness marker.
fn has_witness_encoding(t: &Transaction) -> (r: bool)
    ensures
        r == uses_witness_encoding(t@),
{
    if t.input.len() == 0 {
        return true;
    }
    let mut k: usize = 0;
    while k < t.input.len()
        invariant
            k <= t.input@.len(),
            forall|j: int| 0 <= j < k ==> t.input@[j].witness@.len() == 0,
        decreases t.input@.len() - k,
    {
        if t.input[k].witness.len() > 0 {
            assert(t@.input[k as int].witness.len() > 0);
            return true;
        }
        k += 1;
    }
    assert forall|j: int| 0 <= j < t@.input.len() implies t@.input[j].witness.len() == 0 by {
        assert(t@.input[j] == t.input@[j]@);
    }
    false
}

/// The encoding of a transaction without its witness data.
pub fn tx_base_encoding(t: &Transaction) -> (r: Vec<u8>)
    ensures
        r@ == tx_base_bytes(t@),
{
    let mut out: Vec<u8> = Vec::new();
    put_i32(&mut out, t.version);
    put_inputs(&mut out, &t.input);
    put_outputs(&mut out, &t.output);
    put_u32(&mut out, t.lock_time);
    assert(out@ =~= tx_base_bytes(t@));
    out
}

fn put_tx(out: &mut Vec<u8>, t: &Transaction)
    ensures
        final(out)@ == old(out)@ + tx_bytes(t@),
{
    if has_witness_encoding(t) {
        put_i32(out, t.version);
        out.push(0);
        out.push(1);
        put_inputs(out, &t.input);
        put_outputs(out, &t.output);
        put_witnesses(out, &t.input);
        put_u32(out, t.lock_time);
    } else {
        put_i32(out, t.version);
        put_inputs(out, &t.input);
        put_outputs(out, &t.output);
        put_u32(out, t.lock_time);
    }
    assert(final(out)@ =~= old(out)@ + tx_bytes(t@));
}

/// The full encoding of a transaction.
pub fn tx_encoding(t: &Transaction) -> (r: Vec<u8>)
    ensures
        r@ == tx_bytes(t@),
{
    let mut out: Vec<u8> = Vec::new();
    put_tx(&mut out, t);
    assert(out@ =~= tx_bytes(t@));
    out
}

/// The transaction id: the double hash of the encoding without witness data.
pub fn compute_txid(t: &Transaction) -> (r: [u8; 32])
    ensures
        r@ == txid(t@),
{
    let bytes = tx_base_encoding(t);
    sha256d(bytes.as_slice())
}

/// The witness transaction id: the double hash of the full encoding.
pub fn compute_wtxid(t: &Transaction) -> (r: [u8; 32])
    ensures
        r@ == wtxid(t@),
{
    let bytes = tx_encoding(t);
    sha256d(bytes.as_slice())
}

fn put_header(out: &mut Vec<u8>, h: &Header)
    ensures
        final(out)@ == old(out)@ + header_bytes(h@),
{
    put_i32(out, h.version);
    append_bytes(out, &h.prev_blockhash);
    append_bytes(out, &h.merkle_root);
    put_u32(out, h.time);
    put_u32(out, h.bits);
    put_u32(out, h.nonce);
    assert(final(out)@ =~= old(out)@ + header_bytes(h@));
}

/// The 80-byte encoding of a header.
pub fn header_encoding(h: &Header) -> (r: Vec<u8>)
    ensures
        r@ == header_bytes(h@),
{
    let mut out: Vec<u8> = Vec::with_capacity(80);
    put_header(&mut out, h);
    assert(out@ =~= header_bytes(h@));
    out
}

/// The block hash: the double hash of the header's encoding.
pub fn compute_block_hash(h: &Header) -> (r: [u8; 32])
    ensures
        r@ == block_hash(h@),
{
    let bytes = header_encoding(h);
    sha256d(bytes.as_slice())
}

/// The wire encoding of a block: its header, the transaction count and each
/// transaction in full.
pub fn block_encoding(b: &Block) -> (r: Vec<u8>)
    ensures
        r@ == block_bytes(b@.header, b@.txdata),
{
    let ghost views = b@.txdata;
    let mut out: Vec<u8> = Vec::new();
    put_header(&mut out, &b.header);
    put_compact_size(&mut out, b.txdata.len() as u64);
    let ghost start = out@;
    let mut k: usize = 0;
    while k < b.txdata.len()
        invariant
            k <= b.txdata@.len(),
            views == b@.txdata,
            out@ == start + txs_body(views.take(k as int)),
        decreases b.txdata@.len() - k,
    {
        put_tx(&mut out, &b.txdata[k]);
        assert(views.take(k + 1).drop_last() =~= views.take(k as int));
        k += 1;
        assert(out@ =~= start + txs_body(views.take(k as int)));
    }
    assert(views.take(k as int) =~= views);
    assert(out@ =~= block_bytes(b@.header, views));
    out
}

} // verus!
