//! Reading the wire encoding back: a decoder for blocks, and the proof that
//! it returns what the encoder wrote.
use vstd::prelude::*;

use crate::encode::{
    block_bytes, compact_size, header_bytes, i32_le, inputs_body, inputs_bytes, outputs_body,
    outputs_bytes, stack_body, stack_bytes, tx_bytes, txin_bytes, txout_bytes,
    txs_body, u16_le, u32_le, u64_le, uses_witness_encoding, var_bytes, witnesses_body,
};
use crate::types::{
    bytes_views, txs_view, Block, BlockView, Header, HeaderView, OutPoint, Transaction, TxIn,
    TxInView, TxOut, TxOutView, TxView,
};

verus! {

/// `s` holds `enc` from `pos` on.
pub open spec fn holds_at(s: Seq<u8>, pos: int, enc: Seq<u8>) -> bool {
    0 <= pos && pos + enc.len() <= s.len() && s.subrange(pos, pos + enc.len()) == enc
}

/// Where `s` holds `a + b` at `pos`, it holds `a` there and `b` right after.
proof fn lemma_holds_split(s: Seq<u8>, pos: int, a: Seq<u8>, b: Seq<u8>)
    requires
        holds_at(s, pos, a + b),
    ensures
        holds_at(s, pos, a),
        holds_at(s, pos + a.len(), b),
{
    assert(s.subrange(pos, pos + a.len()) =~= (a + b).subrange(0, a.len() as int));
    assert(s.subrange(pos + a.len(), pos + a.len() + b.len()) =~= (a + b).subrange(
        a.len() as int,
        (a.len() + b.len()) as int,
    ));
    assert((a + b).subrange(0, a.len() as int) =~= a);
    assert((a + b).subrange(a.len() as int, (a.len() + b.len()) as int) =~= b);
}

pub open spec fn get_u8(s: Seq<u8>, pos: int) -> Option<(u8, int)> {
    if 0 <= pos < s.len() {
        Some((s[pos], pos + 1))
    } else {
        None
    }
}

pub open spec fn get_u16(s: Seq<u8>, pos: int) -> Option<(u16, int)> {
    if 0 <= pos && pos + 2 <= s.len() {
        Some(((s[pos] + 256 * s[pos + 1]) as u16, pos + 2))
    } else {
        None
    }
}

pub open spec fn get_u32(s: Seq<u8>, pos: int) -> Option<(u32, int)> {
    if 0 <= pos && pos + 4 <= s.len() {
        Some(
            (
                (s[pos] + 0x100 * s[pos + 1] + 0x1_0000 * s[pos + 2] + 0x100_0000 * s[pos + 3]) as u32,
                pos + 4,
            ),
        )
    } else {
        None
    }
}

pub open spec fn get_u64(s: Seq<u8>, pos: int) -> Option<(u64, int)> {
    match get_u32(s, pos) {
        Some((lo, p)) => match get_u32(s, p) {
            Some((hi, q)) => Some(((lo + 0x1_0000_0000 * hi) as u64, q)),
            None => None,
        },
        None => None,
    }
}

pub open spec fn get_i32(s: Seq<u8>, pos: int) -> Option<(i32, int)> {
    match get_u32(s, pos) {
        Some((u, p)) => Some(
            (
                if u < 0x8000_0000 {
                    u as i32
                } else {
                    (u - 0x1_0000_0000) as i32
                },
                p,
            ),
        ),
        None => None,
    }
}

pub open spec fn get_compact(s: Seq<u8>, pos: int) -> Option<(nat, int)> {
    match get_u8(s, pos) {
        Some((b, p)) => if b < 0xFD {
            Some((b as nat, p))
        } else if b == 0xFD {
            match get_u16(s, p) {
                Some((v, q)) => Some((v as nat, q)),
                None => None,
            }
        } else if b == 0xFE {
            match get_u32(s, p) {
                Some((v, q)) => Some((v as nat, q)),
                None => None,
            }
        } else {
            match get_u64(s, p) {
                Some((v, q)) => Some((v as nat, q)),
                None => None,
            }
        },
        None => None,
    }
}

pub open spec fn get_bytes(s: Seq<u8>, pos: int, n: nat) -> Option<(Seq<u8>, int)> {
    if 0 <= pos && pos + n <= s.len() {
        Some((s.subrange(pos, pos + n), pos + n))
    } else {
        None
    }
}

pub open spec fn get_var_bytes(s: Seq<u8>, pos: int) -> Option<(Seq<u8>, int)> {
    match get_compact(s, pos) {
        Some((n, p)) => get_bytes(s, p, n),
        None => None,
    }
}

proof fn lemma_get_u16(s: Seq<u8>, pos: int, v: u16)
    requires
        holds_at(s, pos, u16_le(v)),
    ensures
        get_u16(s, pos) == Some((v, pos + 2)),
{
    assert(s[pos] == s.subrange(pos, pos + 2)[0]);
    assert(s[pos + 1] == s.subrange(pos, pos + 2)[1]);
}

proof fn lemma_get_u32(s: Seq<u8>, pos: int, v: u32)
    requires
        holds_at(s, pos, u32_le(v)),
    ensures
        get_u32(s, pos) == Some((v, pos + 4)),
{
    let sub = s.subrange(pos, pos + 4);
    assert(s[pos] == sub[0]);
    assert(s[pos + 1] == sub[1]);
    assert(s[pos + 2] == sub[2]);
    assert(s[pos + 3] == sub[3]);
}

proof fn lemma_get_u64(s: Seq<u8>, pos: int, v: u64)
    requires
        holds_at(s, pos, u64_le(v)),
    ensures
        get_u64(s, pos) == Some((v, pos + 8)),
{
    let lo = (v % 0x1_0000_0000) as u32;
    let hi = (v / 0x1_0000_0000) as u32;
    lemma_holds_split(s, pos, u32_le(lo), u32_le(hi));
    lemma_get_u32(s, pos, lo);
    lemma_get_u32(s, pos + 4, hi);
}

proof fn lemma_get_i32(s: Seq<u8>, pos: int, v: i32)
    requires
        holds_at(s, pos, i32_le(v)),
    ensures
        get_i32(s, pos) == Some((v, pos + 4)),
{
    let u: u32 = if v >= 0 {
        v as u32
    } else {
        (v + 0x1_0000_0000) as u32
    };
    lemma_get_u32(s, pos, u);
}

proof fn lemma_get_compact(s: Seq<u8>, pos: int, n: nat)
    requires
        n <= u64::MAX,
        holds_at(s, pos, compact_size(n)),
    ensures
        get_compact(s, pos) == Some((n, pos + compact_size(n).len())),
{
    let c = compact_size(n);
    assert(s[pos] == s.subrange(pos, pos + c.len())[0]);
    if n < 0xFD {
    } else if n <= 0xFFFF {
        lemma_holds_split(s, pos, seq![0xFDu8], u16_le(n as u16));
        lemma_get_u16(s, pos + 1, n as u16);
    } else if n <= 0xFFFF_FFFF {
        lemma_holds_split(s, pos, seq![0xFEu8], u32_le(n as u32));
        lemma_get_u32(s, pos + 1, n as u32);
    } else {
        lemma_holds_split(s, pos, seq![0xFFu8], u64_le(n as u64));
        lemma_get_u64(s, pos + 1, n as u64);
    }
}

proof fn lemma_get_var_bytes(s: Seq<u8>, pos: int, b: Seq<u8>)
    requires
        b.len() <= u64::MAX,
        holds_at(s, pos, var_bytes(b)),
    ensures
        get_var_bytes(s, pos) == Some((b, pos + var_bytes(b).len())),
{
    lemma_holds_split(s, pos, compact_size(b.len()), b);
    lemma_get_compact(s, pos, b.len());
}

/// An input as its encoding without witness reads back: no witness items.
pub open spec fn bare_input(i: TxInView) -> TxInView {
    TxInView { witness: Seq::empty(), ..i }
}

#[verifier::opaque]
pub open spec fn get_txin(s: Seq<u8>, pos: int) -> Option<(TxInView, int)> {
    match get_bytes(s, pos, 32) {
        Some((txid, p1)) => match get_u32(s, p1) {
            Some((vout, p2)) => match get_var_bytes(s, p2) {
                Some((script, p3)) => match get_u32(s, p3) {
                    Some((sequence, p4)) => Some(
                        (
                            TxInView {
                                prev_txid: txid,
                                prev_vout: vout,
                                script_sig: script,
                                sequence,
                                witness: Seq::empty(),
                            },
                            p4,
                        ),
                    ),
                    None => None,
                },
                None => None,
            },
            None => None,
        },
        None => None,
    }
}

pub open spec fn get_txout(s: Seq<u8>, pos: int) -> Option<(TxOutView, int)> {
    match get_u64(s, pos) {
        Some((value, p1)) => match get_var_bytes(s, p1) {
            Some((script, p2)) => Some((TxOutView { value, script_pubkey: script }, p2)),
            None => None,
        },
        None => None,
    }
}

pub open spec fn get_inputs_n(s: Seq<u8>, pos: int, n: nat) -> Option<(Seq<TxInView>, int)>
    decreases n,
{
    if n == 0 {
        Some((Seq::empty(), pos))
    } else {
        match get_inputs_n(s, pos, (n - 1) as nat) {
            Some((v, p)) => match get_txin(s, p) {
                Some((i, q)) => Some((v.push(i), q)),
                None => None,
            },
            None => None,
        }
    }
}

pub open spec fn get_outputs_n(s: Seq<u8>, pos: int, n: nat) -> Option<(Seq<TxOutView>, int)>
    decreases n,
{
    if n == 0 {
        Some((Seq::empty(), pos))
    } else {
        match get_outputs_n(s, pos, (n - 1) as nat) {
            Some((v, p)) => match get_txout(s, p) {
                Some((o, q)) => Some((v.push(o), q)),
                None => None,
            },
            None => None,
        }
    }
}

pub open spec fn get_stack_n(s: Seq<u8>, pos: int, n: nat) -> Option<(Seq<Seq<u8>>, int)>
    decreases n,
{
    if n == 0 {
        Some((Seq::empty(), pos))
    } else {
        match get_stack_n(s, pos, (n - 1) as nat) {
            Some((v, p)) => match get_var_bytes(s, p) {
                Some((b, q)) => Some((v.push(b), q)),
                None => None,
            },
            None => None,
        }
    }
}

pub open spec fn get_stack(s: Seq<u8>, pos: int) -> Option<(Seq<Seq<u8>>, int)> {
    match get_compact(s, pos) {
        Some((n, p)) => get_stack_n(s, p, n),
        None => None,
    }
}

/// Reads the witness stacks of the first `n` of `ins`, in order.
pub open spec fn get_witnesses_n(s: Seq<u8>, pos: int, ins: Seq<TxInView>, n: nat) -> Option<
    (Seq<TxInView>, int),
>
    decreases n,
{
    if n == 0 {
        Some((ins, pos))
    } else {
        match get_witnesses_n(s, pos, ins, (n - 1) as nat) {
            Some((v, p)) => match get_stack(s, p) {
                Some((w, q)) => if n - 1 < v.len() {
                    Some((v.update(n - 1, TxInView { witness: w, ..v[n - 1] }), q))
                } else {
                    None
                },
                None => None,
            },
            None => None,
        }
    }
}

pub open spec fn get_inputs(s: Seq<u8>, pos: int) -> Option<(Seq<TxInView>, int)> {
    match get_compact(s, pos) {
        Some((n, p)) => get_inputs_n(s, p, n),
        None => None,
    }
}

pub open spec fn get_outputs(s: Seq<u8>, pos: int) -> Option<(Seq<TxOutView>, int)> {
    match get_compact(s, pos) {
        Some((n, p)) => get_outputs_n(s, p, n),
        None => None,
    }
}

/// Reads inputs, outputs, the witnesses when `witness` is set, and the lock time.
#[verifier::opaque]
pub open spec fn get_tx_rest(s: Seq<u8>, pos: int, version: i32, witness: bool) -> Option<
    (TxView, int),
> {
    match get_inputs(s, pos) {
        Some((ins, p1)) => match get_outputs(s, p1) {
            Some((outs, p2)) => match (if witness {
                get_witnesses_n(s, p2, ins, ins.len())
            } else {
                Some((ins, p2))
            }) {
                Some((ins2, p3)) => match get_u32(s, p3) {
                    Some((lock_time, p4)) => Some(
                        (TxView { version, lock_time, input: ins2, output: outs }, p4),
                    ),
                    None => None,
                },
                None => None,
            },
            None => None,
        },
        None => None,
    }
}

/// Reads a transaction: a zero byte after the version marks the witness form,
/// which must carry the flag byte one.
#[verifier::opaque]
pub open spec fn get_tx(s: Seq<u8>, pos: int) -> Option<(TxView, int)> {
    match get_i32(s, pos) {
        Some((version, p1)) => if get_u8(s, p1) == Some((0u8, p1 + 1)) {
            if get_u8(s, p1 + 1) == Some((1u8, p1 + 2)) {
                get_tx_rest(s, p1 + 2, version, true)
            } else {
                None
            }
        } else {
            get_tx_rest(s, p1, version, false)
        },
        None => None,
    }
}

pub open spec fn get_txs_n(s: Seq<u8>, pos: int, n: nat) -> Option<(Seq<TxView>, int)>
    decreases n,
{
    if n == 0 {
        Some((Seq::empty(), pos))
    } else {
        match get_txs_n(s, pos, (n - 1) as nat) {
            Some((v, p)) => match get_tx(s, p) {
                Some((t, q)) => Some((v.push(t), q)),
                None => None,
            },
            None => None,
        }
    }
}

#[verifier::opaque]
pub open spec fn get_header(s: Seq<u8>, pos: int) -> Option<(HeaderView, int)> {
    match get_i32(s, pos) {
        Some((version, p1)) => match get_bytes(s, p1, 32) {
            Some((prev, p2)) => match get_bytes(s, p2, 32) {
                Some((root, p3)) => match get_u32(s, p3) {
                    Some((time, p4)) => match get_u32(s, p4) {
                        Some((bits, p5)) => match get_u32(s, p5) {
                            Some((nonce, p6)) => Some(
                                (
                                    HeaderView {
                                        version,
                                        prev_blockhash: prev,
                                        merkle_root: root,
                                        time,
                                        bits,
                                        nonce,
                                    },
                                    p6,
                                ),
                            ),
                            None => None,
                        },
                        None => None,
                    },
                    None => None,
                },
                None => None,
            },
            None => None,
        },
        None => None,
    }
}

/// Reads a whole block; bytes left over after the last transaction are refused.
pub open spec fn get_block(s: Seq<u8>) -> Option<BlockView> {
    match get_header(s, 0) {
        Some((header, p1)) => match get_compact(s, p1) {
            Some((n, p2)) => match get_txs_n(s, p2, n) {
                Some((txs, p3)) => if p3 == s.len() {
                    Some(BlockView { header, txdata: txs })
                } else {
                    None
                },
                None => None,
            },
            None => None,
        },
        None => None,
    }
}

pub open spec fn txin_fits(i: TxInView) -> bool {
    &&& i.prev_txid.len() == 32
    &&& i.script_sig.len() <= u64::MAX
    &&& i.witness.len() <= u64::MAX
    &&& forall|k: int| 0 <= k < i.witness.len() ==> #[trigger] i.witness[k].len() <= u64::MAX
}

pub open spec fn tx_fits(t: TxView) -> bool {
    &&& t.input.len() <= u64::MAX
    &&& t.output.len() <= u64::MAX
    &&& forall|k: int| 0 <= k < t.input.len() ==> txin_fits(#[trigger] t.input[k])
    &&& forall|k: int|
        0 <= k < t.output.len() ==> #[trigger] t.output[k].script_pubkey.len() <= u64::MAX
}

/// Hashes of 32 bytes, and every length and count within 64 bits: what any
/// block held in memory satisfies.
pub open spec fn block_fits(h: HeaderView, txs: Seq<TxView>) -> bool {
    &&& h.prev_blockhash.len() == 32
    &&& h.merkle_root.len() == 32
    &&& txs.len() <= u64::MAX
    &&& forall|k: int| 0 <= k < txs.len() ==> tx_fits(#[trigger] txs[k])
}

proof fn lemma_get_bytes(s: Seq<u8>, pos: int, b: Seq<u8>)
    requires
        holds_at(s, pos, b),
    ensures
        get_bytes(s, pos, b.len()) == Some((b, pos + b.len())),
{
}

proof fn lemma_get_txin(s: Seq<u8>, pos: int, i: TxInView)
    requires
        txin_fits(i),
        holds_at(s, pos, txin_bytes(i)),
    ensures
        get_txin(s, pos) == Some((bare_input(i), pos + txin_bytes(i).len())),
{
    let a = i.prev_txid;
    let b = u32_le(i.prev_vout);
    let c = var_bytes(i.script_sig);
    let d = u32_le(i.sequence);
    reveal(get_txin);
    lemma_holds_split(s, pos, a + b + c, d);
    lemma_holds_split(s, pos, a + b, c);
    lemma_holds_split(s, pos, a, b);
    lemma_get_bytes(s, pos, a);
    lemma_get_u32(s, pos + 32, i.prev_vout);
    lemma_get_var_bytes(s, pos + 36, i.script_sig);
    lemma_get_u32(s, pos + 36 + c.len(), i.sequence);
}

proof fn lemma_get_txout(s: Seq<u8>, pos: int, o: TxOutView)
    requires
        o.script_pubkey.len() <= u64::MAX,
        holds_at(s, pos, txout_bytes(o)),
    ensures
        get_txout(s, pos) == Some((o, pos + txout_bytes(o).len())),
{
    lemma_holds_split(s, pos, u64_le(o.value), var_bytes(o.script_pubkey));
    lemma_get_u64(s, pos, o.value);
    lemma_get_var_bytes(s, pos + 8, o.script_pubkey);
}

proof fn lemma_get_inputs_n(s: Seq<u8>, pos: int, ins: Seq<TxInView>)
    requires
        forall|k: int| 0 <= k < ins.len() ==> txin_fits(#[trigger] ins[k]),
        holds_at(s, pos, inputs_body(ins)),
    ensures
        get_inputs_n(s, pos, ins.len()) == Some(
            (ins.map_values(|i: TxInView| bare_input(i)), pos + inputs_body(ins).len()),
        ),
    decreases ins.len(),
{
    if ins.len() > 0 {
        let init = ins.drop_last();
        lemma_holds_split(s, pos, inputs_body(init), txin_bytes(ins.last()));
        assert forall|k: int| 0 <= k < init.len() implies txin_fits(#[trigger] init[k]) by {
            assert(init[k] == ins[k]);
        }
        lemma_get_inputs_n(s, pos, init);
        lemma_get_txin(s, pos + inputs_body(init).len(), ins.last());
        assert(init.map_values(|i: TxInView| bare_input(i)).push(bare_input(ins.last()))
            =~= ins.map_values(|i: TxInView| bare_input(i)));
    } else {
        assert(ins.map_values(|i: TxInView| bare_input(i)) =~= Seq::<TxInView>::empty());
    }
}

proof fn lemma_get_outputs_n(s: Seq<u8>, pos: int, outs: Seq<TxOutView>)
    requires
        forall|k: int| 0 <= k < outs.len() ==> #[trigger] outs[k].script_pubkey.len() <= u64::MAX,
        holds_at(s, pos, outputs_body(outs)),
    ensures
        get_outputs_n(s, pos, outs.len()) == Some((outs, pos + outputs_body(outs).len())),
    decreases outs.len(),
{
    if outs.len() > 0 {
        let init = outs.drop_last();
        lemma_holds_split(s, pos, outputs_body(init), txout_bytes(outs.last()));
        assert forall|k: int| 0 <= k < init.len() implies #[trigger] init[k].script_pubkey.len()
            <= u64::MAX by {
            assert(init[k] == outs[k]);
        }
        lemma_get_outputs_n(s, pos, init);
        lemma_get_txout(s, pos + outputs_body(init).len(), outs.last());
        assert(init.push(outs.last()) =~= outs);
    } else {
        assert(outs =~= Seq::<TxOutView>::empty());
    }
}

proof fn lemma_get_stack_n(s: Seq<u8>, pos: int, w: Seq<Seq<u8>>)
    requires
        forall|k: int| 0 <= k < w.len() ==> #[trigger] w[k].len() <= u64::MAX,
        holds_at(s, pos, stack_body(w)),
    ensures
        get_stack_n(s, pos, w.len()) == Some((w, pos + stack_body(w).len())),
    decreases w.len(),
{
    if w.len() > 0 {
        let init = w.drop_last();
        lemma_holds_split(s, pos, stack_body(init), var_bytes(w.last()));
        assert forall|k: int| 0 <= k < init.len() implies #[trigger] init[k].len() <= u64::MAX by {
            assert(init[k] == w[k]);
        }
        lemma_get_stack_n(s, pos, init);
        lemma_get_var_bytes(s, pos + stack_body(init).len(), w.last());
        assert(init.push(w.last()) =~= w);
    } else {
        assert(w =~= Seq::<Seq<u8>>::empty());
    }
}

proof fn lemma_get_stack(s: Seq<u8>, pos: int, w: Seq<Seq<u8>>)
    requires
        w.len() <= u64::MAX,
        forall|k: int| 0 <= k < w.len() ==> #[trigger] w[k].len() <= u64::MAX,
        holds_at(s, pos, stack_bytes(w)),
    ensures
        get_stack(s, pos) == Some((w, pos + stack_bytes(w).len())),
{
    lemma_holds_split(s, pos, compact_size(w.len()), stack_body(w));
    lemma_get_compact(s, pos, w.len());
    lemma_get_stack_n(s, pos + compact_size(w.len()).len(), w);
}

/// The inputs with the witnesses of the first `k` put back.
pub open spec fn restored(ins: Seq<TxInView>, k: int) -> Seq<TxInView> {
    Seq::new(ins.len(), |j: int| if j < k { ins[j] } else { bare_input(ins[j]) })
}

proof fn lemma_get_witnesses_n(s: Seq<u8>, pos: int, ins: Seq<TxInView>, k: nat)
    requires
        k <= ins.len(),
        forall|j: int| 0 <= j < ins.len() ==> txin_fits(#[trigger] ins[j]),
        holds_at(s, pos, witnesses_body(ins.take(k as int))),
    ensures
        get_witnesses_n(s, pos, ins.map_values(|i: TxInView| bare_input(i)), k) == Some(
            (restored(ins, k as int), pos + witnesses_body(ins.take(k as int)).len()),
        ),
    decreases k,
{
    let bare = ins.map_values(|i: TxInView| bare_input(i));
    if k == 0 {
        assert(restored(ins, 0) =~= bare);
    } else {
        let prefix = ins.take(k as int);
        assert(prefix.drop_last() =~= ins.take(k - 1));
        lemma_holds_split(s, pos, witnesses_body(ins.take(k - 1)), stack_bytes(ins[k - 1].witness));
        lemma_get_witnesses_n(s, pos, ins, (k - 1) as nat);
        let p = pos + witnesses_body(ins.take(k - 1)).len();
        assert(txin_fits(ins[k - 1]));
        lemma_get_stack(s, p, ins[k - 1].witness);
        let v = restored(ins, k - 1);
        assert(v.update(k - 1, TxInView { witness: ins[k - 1].witness, ..v[k - 1] }) =~= restored(
            ins,
            k as int,
        ));
    }
}

proof fn lemma_get_inputs(s: Seq<u8>, pos: int, ins: Seq<TxInView>)
    requires
        ins.len() <= u64::MAX,
        forall|k: int| 0 <= k < ins.len() ==> txin_fits(#[trigger] ins[k]),
        holds_at(s, pos, inputs_bytes(ins)),
    ensures
        get_inputs(s, pos) == Some(
            (ins.map_values(|i: TxInView| bare_input(i)), pos + inputs_bytes(ins).len()),
        ),
{
    lemma_holds_split(s, pos, compact_size(ins.len()), inputs_body(ins));
    lemma_get_compact(s, pos, ins.len());
    lemma_get_inputs_n(s, pos + compact_size(ins.len()).len(), ins);
}

proof fn lemma_get_outputs(s: Seq<u8>, pos: int, outs: Seq<TxOutView>)
    requires
        outs.len() <= u64::MAX,
        forall|k: int| 0 <= k < outs.len() ==> #[trigger] outs[k].script_pubkey.len() <= u64::MAX,
        holds_at(s, pos, outputs_bytes(outs)),
    ensures
        get_outputs(s, pos) == Some((outs, pos + outputs_bytes(outs).len())),
{
    lemma_holds_split(s, pos, compact_size(outs.len()), outputs_body(outs));
    lemma_get_compact(s, pos, outs.len());
    lemma_get_outputs_n(s, pos + compact_size(outs.len()).len(), outs);
}

proof fn lemma_get_tx_rest(s: Seq<u8>, pos: int, t: TxView, witness: bool, w: Seq<u8>)
    requires
        tx_fits(t),
        witness || forall|k: int| 0 <= k < t.input.len() ==> #[trigger] t.input[k].witness.len()
            == 0,
        w == (if witness {
            witnesses_body(t.input)
        } else {
            Seq::<u8>::empty()
        }),
        holds_at(
            s,
            pos,
            inputs_bytes(t.input) + outputs_bytes(t.output) + w + u32_le(t.lock_time),
        ),
    ensures
        get_tx_rest(s, pos, t.version, witness) == Some(
            (
                t,
                pos + (inputs_bytes(t.input) + outputs_bytes(t.output) + w + u32_le(
                    t.lock_time,
                )).len(),
            ),
        ),
{
    let ins = inputs_bytes(t.input);
    let outs = outputs_bytes(t.output);
    let l = u32_le(t.lock_time);
    let bare = t.input.map_values(|i: TxInView| bare_input(i));
    reveal(get_tx_rest);
    lemma_holds_split(s, pos, ins + outs + w, l);
    lemma_holds_split(s, pos, ins + outs, w);
    lemma_holds_split(s, pos, ins, outs);
    lemma_get_inputs(s, pos, t.input);
    let p2 = pos + ins.len();
    lemma_get_outputs(s, p2, t.output);
    let p3 = p2 + outs.len();
    if witness {
        assert(t.input.take(t.input.len() as int) =~= t.input);
        lemma_get_witnesses_n(s, p3, t.input, t.input.len());
        assert(restored(t.input, t.input.len() as int) =~= t.input);
    } else {
        assert forall|k: int| 0 <= k < t.input.len() implies bare[k] == t.input[k] by {
            assert(t.input[k].witness =~= Seq::<Seq<u8>>::empty());
        }
        assert(bare =~= t.input);
    }
    lemma_get_u32(s, p3 + w.len(), t.lock_time);
}

proof fn lemma_get_tx_witness(s: Seq<u8>, pos: int, t: TxView)
    requires
        tx_fits(t),
        holds_at(
            s,
            pos,
            i32_le(t.version) + seq![0u8, 1u8] + (inputs_bytes(t.input) + outputs_bytes(t.output)
                + witnesses_body(t.input) + u32_le(t.lock_time)),
        ),
    ensures
        get_tx(s, pos) == Some(
            (
                t,
                pos + 6 + (inputs_bytes(t.input) + outputs_bytes(t.output) + witnesses_body(t.input)
                    + u32_le(t.lock_time)).len(),
            ),
        ),
{
    let a = i32_le(t.version);
    let m = seq![0u8, 1u8];
    let rest = inputs_bytes(t.input) + outputs_bytes(t.output) + witnesses_body(t.input) + u32_le(
        t.lock_time,
    );
    reveal(get_tx);
    lemma_holds_split(s, pos, a + m, rest);
    lemma_holds_split(s, pos, a, m);
    lemma_get_i32(s, pos, t.version);
    assert(s[pos + 4] == s.subrange(pos + 4, pos + 6)[0]);
    assert(s[pos + 5] == s.subrange(pos + 4, pos + 6)[1]);
    lemma_get_tx_rest(s, pos + 6, t, true, witnesses_body(t.input));
}

proof fn lemma_get_tx_legacy(s: Seq<u8>, pos: int, t: TxView)
    requires
        tx_fits(t),
        t.input.len() > 0,
        forall|k: int| 0 <= k < t.input.len() ==> #[trigger] t.input[k].witness.len() == 0,
        holds_at(
            s,
            pos,
            i32_le(t.version) + (inputs_bytes(t.input) + outputs_bytes(t.output) + Seq::<u8>::empty()
                + u32_le(t.lock_time)),
        ),
    ensures
        get_tx(s, pos) == Some(
            (
                t,
                pos + 4 + (inputs_bytes(t.input) + outputs_bytes(t.output) + Seq::<u8>::empty()
                    + u32_le(t.lock_time)).len(),
            ),
        ),
{
    let a = i32_le(t.version);
    let ins = inputs_bytes(t.input);
    let tail = outputs_bytes(t.output) + Seq::<u8>::empty() + u32_le(t.lock_time);
    let rest = ins + outputs_bytes(t.output) + Seq::<u8>::empty() + u32_le(t.lock_time);
    reveal(get_tx);
    lemma_holds_split(s, pos, a, rest);
    lemma_get_i32(s, pos, t.version);
    assert(rest =~= ins + tail);
    lemma_holds_split(s, pos + 4, ins, tail);
    let c = compact_size(t.input.len());
    lemma_holds_split(s, pos + 4, c, inputs_body(t.input));
    assert(s[pos + 4] == s.subrange(pos + 4, pos + 4 + c.len())[0]);
    assert(s[pos + 4] != 0);
    lemma_get_tx_rest(s, pos + 4, t, false, Seq::<u8>::empty());
}

proof fn lemma_get_tx(s: Seq<u8>, pos: int, t: TxView)
    requires
        tx_fits(t),
        holds_at(s, pos, tx_bytes(t)),
    ensures
        get_tx(s, pos) == Some((t, pos + tx_bytes(t).len())),
{
    let a = i32_le(t.version);
    let ins = inputs_bytes(t.input);
    let outs = outputs_bytes(t.output);
    let l = u32_le(t.lock_time);
    if uses_witness_encoding(t) {
        let m = seq![0u8, 1u8];
        let w = witnesses_body(t.input);
        assert(tx_bytes(t) =~= a + m + (ins + outs + w + l));
        lemma_get_tx_witness(s, pos, t);
    } else {
        assert(tx_bytes(t) =~= a + (ins + outs + Seq::<u8>::empty() + l));
        assert forall|k: int| 0 <= k < t.input.len() implies #[trigger] t.input[k].witness.len()
            == 0 by {
            if t.input[k].witness.len() > 0 {
                assert(uses_witness_encoding(t));
            }
        }
        lemma_get_tx_legacy(s, pos, t);
    }
}

proof fn lemma_get_txs_n(s: Seq<u8>, pos: int, txs: Seq<TxView>)
    requires
        forall|k: int| 0 <= k < txs.len() ==> tx_fits(#[trigger] txs[k]),
        holds_at(s, pos, txs_body(txs)),
    ensures
        get_txs_n(s, pos, txs.len()) == Some((txs, pos + txs_body(txs).len())),
    decreases txs.len(),
{
    if txs.len() > 0 {
        let init = txs.drop_last();
        lemma_holds_split(s, pos, txs_body(init), tx_bytes(txs.last()));
        assert forall|k: int| 0 <= k < init.len() implies tx_fits(#[trigger] init[k]) by {
            assert(init[k] == txs[k]);
        }
        lemma_get_txs_n(s, pos, init);
        lemma_get_tx(s, pos + txs_body(init).len(), txs.last());
        assert(init.push(txs.last()) =~= txs);
    } else {
        assert(txs =~= Seq::<TxView>::empty());
    }
}

proof fn lemma_get_header(s: Seq<u8>, pos: int, h: HeaderView)
    requires
        h.prev_blockhash.len() == 32,
        h.merkle_root.len() == 32,
        holds_at(s, pos, header_bytes(h)),
    ensures
        get_header(s, pos) == Some((h, pos + 80)),
{
    let a = i32_le(h.version);
    let b = h.prev_blockhash;
    let c = h.merkle_root;
    let d = u32_le(h.time);
    let e = u32_le(h.bits);
    let f = u32_le(h.nonce);
    reveal(get_header);
    lemma_holds_split(s, pos, a + b + c + d + e, f);
    lemma_holds_split(s, pos, a + b + c + d, e);
    lemma_holds_split(s, pos, a + b + c, d);
    lemma_holds_split(s, pos, a + b, c);
    lemma_holds_split(s, pos, a, b);
    lemma_get_i32(s, pos, h.version);
    lemma_get_bytes(s, pos + 4, b);
    lemma_get_bytes(s, pos + 36, c);
    lemma_get_u32(s, pos + 68, h.time);
    lemma_get_u32(s, pos + 72, h.bits);
    lemma_get_u32(s, pos + 76, h.nonce);
}

#[verifier::rlimit(40)]
/// Reading back the encoding of a block gives the same header and the same
/// transactions, witness data included.
pub proof fn lemma_block_round_trip(h: HeaderView, txs: Seq<TxView>)
    requires
        block_fits(h, txs),
    ensures
        get_block(block_bytes(h, txs)) == Some(BlockView { header: h, txdata: txs }),
{
    let s = block_bytes(h, txs);
    let hb = header_bytes(h);
    let c = compact_size(txs.len());
    let body = txs_body(txs);
    assert(s.subrange(0, s.len() as int) =~= s);
    lemma_holds_split(s, 0, hb + c, body);
    lemma_holds_split(s, 0, hb, c);
    lemma_get_header(s, 0, h);
    lemma_get_compact(s, 80, txs.len());
    lemma_get_txs_n(s, 80 + c.len() as int, txs);
}

/// An executable read result as a position in the spec's terms.
pub open spec fn at<T>(r: Option<(T, usize)>) -> Option<(T, int)> {
    match r {
        Some((v, p)) => Some((v, p as int)),
        None => None,
    }
}

pub open spec fn at_view<T: View>(r: Option<(T, usize)>) -> Option<(T::V, int)> {
    match r {
        Some((v, p)) => Some((v@, p as int)),
        None => None,
    }
}

fn read_u8(data: &[u8], pos: usize) -> (r: Option<(u8, usize)>)
    ensures
        at(r) == get_u8(data@, pos as int),
{
    if pos < data.len() {
        Some((data[pos], pos + 1))
    } else {
        None
    }
}

fn read_u16(data: &[u8], pos: usize) -> (r: Option<(u16, usize)>)
    ensures
        at(r) == get_u16(data@, pos as int),
{
    if pos <= data.len() && data.len() - pos >= 2 {
        Some((data[pos] as u16 + 256 * (data[pos + 1] as u16), pos + 2))
    } else {
        None
    }
}

fn read_u32(data: &[u8], pos: usize) -> (r: Option<(u32, usize)>)
    ensures
        at(r) == get_u32(data@, pos as int),
{
    if pos <= data.len() && data.len() - pos >= 4 {
        let v = data[pos] as u32 + 0x100 * (data[pos + 1] as u32) + 0x1_0000 * (data[pos + 2] as u32)
            + 0x100_0000 * (data[pos + 3] as u32);
        Some((v, pos + 4))
    } else {
        None
    }
}

fn read_u64(data: &[u8], pos: usize) -> (r: Option<(u64, usize)>)
    ensures
        at(r) == get_u64(data@, pos as int),
{
    match read_u32(data, pos) {
        Some((lo, p)) => match read_u32(data, p) {
            Some((hi, q)) => Some((lo as u64 + 0x1_0000_0000 * (hi as u64), q)),
            None => None,
        },
        None => None,
    }
}

fn read_i32(data: &[u8], pos: usize) -> (r: Option<(i32, usize)>)
    ensures
        at(r) == get_i32(data@, pos as int),
{
    match read_u32(data, pos) {
        Some((u, p)) => if u < 0x8000_0000 {
            Some((u as i32, p))
        } else {
            Some(((u as i64 - 0x1_0000_0000i64) as i32, p))
        },
        None => None,
    }
}

fn read_compact(data: &[u8], pos: usize) -> (r: Option<(u64, usize)>)
    ensures
        match r {
            Some((n, p)) => get_compact(data@, pos as int) == Some((n as nat, p as int)),
            None => get_compact(data@, pos as int) is None,
        },
{
    match read_u8(data, pos) {
        Some((b, p)) => if b < 0xFD {
            Some((b as u64, p))
        } else if b == 0xFD {
            match read_u16(data, p) {
                Some((v, q)) => Some((v as u64, q)),
                None => None,
            }
        } else if b == 0xFE {
            match read_u32(data, p) {
                Some((v, q)) => Some((v as u64, q)),
                None => None,
            }
        } else {
            read_u64(data, p)
        },
        None => None,
    }
}

fn read_bytes(data: &[u8], pos: usize, n: u64) -> (r: Option<(Vec<u8>, usize)>)
    ensures
        at_view(r) == get_bytes(data@, pos as int, n as nat),
{
    if pos > data.len() || n > (data.len() - pos) as u64 {
        return None;
    }
    let end = pos + n as usize;
    let mut out: Vec<u8> = Vec::with_capacity(n as usize);
    let mut i: usize = pos;
    while i < end
        invariant
            pos <= i <= end,
            end <= data@.len(),
            out@ == data@.subrange(pos as int, i as int),
        decreases end - i,
    {
        out.push(data[i]);
        i += 1;
        assert(out@ =~= data@.subrange(pos as int, i as int));
    }
    Some((out, end))
}

fn read_hash(data: &[u8], pos: usize) -> (r: Option<([u8; 32], usize)>)
    ensures
        at_view(r) == get_bytes(data@, pos as int, 32),
{
    if pos > data.len() || data.len() - pos < 32 {
        return None;
    }
    let mut out = [0u8; 32];
    let mut i: usize = 0;
    while i < 32
        invariant
            i <= 32,
            pos + 32 <= data.len(),
            data.len() == data@.len(),
            forall|j: int| 0 <= j < i ==> out@[j] == data@[pos + j],
        decreases 32 - i,
    {
        out[i] = data[pos + i];
        i += 1;
    }
    assert(out@ =~= data@.subrange(pos as int, pos + 32));
    Some((out, pos + 32))
}

fn read_var_bytes(data: &[u8], pos: usize) -> (r: Option<(Vec<u8>, usize)>)
    ensures
        at_view(r) == get_var_bytes(data@, pos as int),
{
    match read_compact(data, pos) {
        Some((n, p)) => read_bytes(data, p, n),
        None => None,
    }
}

fn read_txin(data: &[u8], pos: usize) -> (r: Option<(TxIn, usize)>)
    ensures
        at_view(r) == get_txin(data@, pos as int),
{
    reveal(get_txin);
    let (txid, p1) = match read_hash(data, pos) {
        Some(x) => x,
        None => return None,
    };
    let (vout, p2) = match read_u32(data, p1) {
        Some(x) => x,
        None => return None,
    };
    let (script_sig, p3) = match read_var_bytes(data, p2) {
        Some(x) => x,
        None => return None,
    };
    let (sequence, p4) = match read_u32(data, p3) {
        Some(x) => x,
        None => return None,
    };
    let input = TxIn {
        previous_output: OutPoint { txid, vout },
        script_sig,
        sequence,
        witness: Vec::new(),
    };
    assert(input@.witness =~= Seq::<Seq<u8>>::empty());
    Some((input, p4))
}

fn read_txout(data: &[u8], pos: usize) -> (r: Option<(TxOut, usize)>)
    ensures
        at_view(r) == get_txout(data@, pos as int),
{
    let (value, p1) = match read_u64(data, pos) {
        Some(x) => x,
        None => return None,
    };
    let (script_pubkey, p2) = match read_var_bytes(data, p1) {
        Some(x) => x,
        None => return None,
    };
    Some((TxOut { value, script_pubkey }, p2))
}

proof fn lemma_inputs_none(s: Seq<u8>, pos: int, k: nat, n: nat)
    requires
        k <= n,
        get_inputs_n(s, pos, k) is None,
    ensures
        get_inputs_n(s, pos, n) is None,
    decreases n - k,
{
    if k < n {
        lemma_inputs_none(s, pos, k + 1, n);
    }
}

proof fn lemma_outputs_none(s: Seq<u8>, pos: int, k: nat, n: nat)
    requires
        k <= n,
        get_outputs_n(s, pos, k) is None,
    ensures
        get_outputs_n(s, pos, n) is None,
    decreases n - k,
{
    if k < n {
        lemma_outputs_none(s, pos, k + 1, n);
    }
}

proof fn lemma_stack_none(s: Seq<u8>, pos: int, k: nat, n: nat)
    requires
        k <= n,
        get_stack_n(s, pos, k) is None,
    ensures
        get_stack_n(s, pos, n) is None,
    decreases n - k,
{
    if k < n {
        lemma_stack_none(s, pos, k + 1, n);
    }
}

proof fn lemma_txs_none(s: Seq<u8>, pos: int, k: nat, n: nat)
    requires
        k <= n,
        get_txs_n(s, pos, k) is None,
    ensures
        get_txs_n(s, pos, n) is None,
    decreases n - k,
{
    if k < n {
        lemma_txs_none(s, pos, k + 1, n);
    }
}

pub open spec fn ins_view(v: Seq<TxIn>) -> Seq<TxInView> {
    v.map_values(|x: TxIn| x@)
}

pub open spec fn outs_view(v: Seq<TxOut>) -> Seq<TxOutView> {
    v.map_values(|x: TxOut| x@)
}

fn read_inputs(data: &[u8], pos: usize) -> (r: Option<(Vec<TxIn>, usize)>)
    ensures
        match r {
            Some((v, p)) => get_inputs(data@, pos as int) == Some((ins_view(v@), p as int)),
            None => get_inputs(data@, pos as int) is None,
        },
{
    let (n, p0) = match read_compact(data, pos) {
        Some(x) => x,
        None => return None,
    };
    let mut v: Vec<TxIn> = Vec::new();
    let mut p = p0;
    let mut k: u64 = 0;
    while k < n
        invariant
            k <= n,
            get_compact(data@, pos as int) == Some((n as nat, p0 as int)),
            get_inputs_n(data@, p0 as int, k as nat) == Some((ins_view(v@), p as int)),
        decreases n - k,
    {
        match read_txin(data, p) {
            Some((i, q)) => {
                v.push(i);
                p = q;
                k += 1;
                assert(ins_view(v@) =~= ins_view(v@.drop_last()).push(i@));
            },
            None => {
                proof {
                    lemma_inputs_none(data@, p0 as int, (k + 1) as nat, n as nat);
                }
                return None;
            },
        }
    }
    Some((v, p))
}

fn read_outputs(data: &[u8], pos: usize) -> (r: Option<(Vec<TxOut>, usize)>)
    ensures
        match r {
            Some((v, p)) => get_outputs(data@, pos as int) == Some((outs_view(v@), p as int)),
            None => get_outputs(data@, pos as int) is None,
        },
{
    let (n, p0) = match read_compact(data, pos) {
        Some(x) => x,
        None => return None,
    };
    let mut v: Vec<TxOut> = Vec::new();
    let mut p = p0;
    let mut k: u64 = 0;
    while k < n
        invariant
            k <= n,
            get_compact(data@, pos as int) == Some((n as nat, p0 as int)),
            get_outputs_n(data@, p0 as int, k as nat) == Some((outs_view(v@), p as int)),
        decreases n - k,
    {
        match read_txout(data, p) {
            Some((o, q)) => {
                v.push(o);
                p = q;
                k += 1;
                assert(outs_view(v@) =~= outs_view(v@.drop_last()).push(o@));
            },
            None => {
                proof {
                    lemma_outputs_none(data@, p0 as int, (k + 1) as nat, n as nat);
                }
                return None;
            },
        }
    }
    Some((v, p))
}

fn read_stack(data: &[u8], pos: usize) -> (r: Option<(Vec<Vec<u8>>, usize)>)
    ensures
        match r {
            Some((v, p)) => get_stack(data@, pos as int) == Some((bytes_views(v@), p as int)),
            None => get_stack(data@, pos as int) is None,
        },
{
    let (n, p0) = match read_compact(data, pos) {
        Some(x) => x,
        None => return None,
    };
    let mut v: Vec<Vec<u8>> = Vec::new();
    let mut p = p0;
    let mut k: u64 = 0;
    while k < n
        invariant
            k <= n,
            get_compact(data@, pos as int) == Some((n as nat, p0 as int)),
            get_stack_n(data@, p0 as int, k as nat) == Some((bytes_views(v@), p as int)),
        decreases n - k,
    {
        match read_var_bytes(data, p) {
            Some((b, q)) => {
                v.push(b);
                p = q;
                k += 1;
                assert(bytes_views(v@) =~= bytes_views(v@.drop_last()).push(b@));
            },
            None => {
                proof {
                    lemma_stack_none(data@, p0 as int, (k + 1) as nat, n as nat);
                }
                return None;
            },
        }
    }
    Some((v, p))
}

proof fn lemma_witnesses_none(s: Seq<u8>, pos: int, ins: Seq<TxInView>, k: nat, n: nat)
    requires
        k <= n,
        get_witnesses_n(s, pos, ins, k) is None,
    ensures
        get_witnesses_n(s, pos, ins, n) is None,
    decreases n - k,
{
    if k < n {
        lemma_witnesses_none(s, pos, ins, k + 1, n);
    }
}

fn read_witnesses(data: &[u8], pos: usize, ins: &mut Vec<TxIn>) -> (r: Option<usize>)
    ensures
        match r {
            Some(p) => get_witnesses_n(data@, pos as int, ins_view(old(ins)@), old(ins)@.len())
                == Some((ins_view(final(ins)@), p as int)),
            None => get_witnesses_n(data@, pos as int, ins_view(old(ins)@), old(ins)@.len()) is None,
        },
{
    let ghost orig = ins_view(ins@);
    let n = ins.len();
    let mut p = pos;
    let mut k: usize = 0;
    while k < n
        invariant
            k <= n,
            n == ins@.len(),
            orig == ins_view(old(ins)@),
            n == old(ins)@.len(),
            get_witnesses_n(data@, pos as int, orig, k as nat) == Some((ins_view(ins@), p as int)),
        decreases n - k,
    {
        match read_stack(data, p) {
            Some((w, q)) => {
                let ghost before = ins_view(ins@);
                ins[k].witness = w;
                assert(ins_view(ins@) =~= before.update(
                    k as int,
                    TxInView { witness: bytes_views(w@), ..before[k as int] },
                ));
                p = q;
                k += 1;
            },
            None => {
                proof {
                    lemma_witnesses_none(data@, pos as int, orig, (k + 1) as nat, n as nat);
                }
                return None;
            },
        }
    }
    Some(p)
}

fn read_tx(data: &[u8], pos: usize) -> (r: Option<(Transaction, usize)>)
    ensures
        at_view(r) == get_tx(data@, pos as int),
{
    reveal(get_tx);
    reveal(get_tx_rest);
    let (version, p1) = match read_i32(data, pos) {
        Some(x) => x,
        None => return None,
    };
    let mut witness = false;
    let mut start = p1;
    match read_u8(data, p1) {
        Some((marker, q)) => if marker == 0 {
            match read_u8(data, q) {
                Some((flag, q2)) => if flag == 1 {
                    witness = true;
                    start = q2;
                } else {
                    return None;
                },
                None => return None,
            }
        },
        None => {},
    }
    let (mut ins, p2) = match read_inputs(data, start) {
        Some(x) => x,
        None => return None,
    };
    let (outs, p3) = match read_outputs(data, p2) {
        Some(x) => x,
        None => return None,
    };
    let p4 = if witness {
        match read_witnesses(data, p3, &mut ins) {
            Some(p) => p,
            None => return None,
        }
    } else {
        p3
    };
    let (lock_time, p5) = match read_u32(data, p4) {
        Some(x) => x,
        None => return None,
    };
    let tx = Transaction { version, lock_time, input: ins, output: outs };
    assert(tx@.input =~= ins_view(tx.input@));
    assert(tx@.output =~= outs_view(tx.output@));
    Some((tx, p5))
}

fn read_header(data: &[u8], pos: usize) -> (r: Option<(Header, usize)>)
    ensures
        at_view(r) == get_header(data@, pos as int),
{
    reveal(get_header);
    let (version, p1) = match read_i32(data, pos) {
        Some(x) => x,
        None => return None,
    };
    let (prev_blockhash, p2) = match read_hash(data, p1) {
        Some(x) => x,
        None => return None,
    };
    let (merkle_root, p3) = match read_hash(data, p2) {
        Some(x) => x,
        None => return None,
    };
    let (time, p4) = match read_u32(data, p3) {
        Some(x) => x,
        None => return None,
    };
    let (bits, p5) = match read_u32(data, p4) {
        Some(x) => x,
        None => return None,
    };
    let (nonce, p6) = match read_u32(data, p5) {
        Some(x) => x,
        None => return None,
    };
    Some((Header { version, prev_blockhash, merkle_root, time, bits, nonce }, p6))
}

/// Decodes a block from its wire encoding; refuses bytes that do not encode
/// one, and bytes left over after it.
pub fn parse_block(data: &[u8]) -> (r: Option<Block>)
    ensures
        match r {
            Some(b) => get_block(data@) == Some(b@),
            None => get_block(data@) is None,
        },
{
    let (header, p1) = match read_header(data, 0) {
        Some(x) => x,
        None => return None,
    };
    let (n, p2) = match read_compact(data, p1) {
        Some(x) => x,
        None => return None,
    };
    let mut txs: Vec<Transaction> = Vec::new();
    let mut p = p2;
    let mut k: u64 = 0;
    while k < n
        invariant
            k <= n,
            get_header(data@, 0) == Some((header@, p1 as int)),
            get_compact(data@, p1 as int) == Some((n as nat, p2 as int)),
            get_txs_n(data@, p2 as int, k as nat) == Some((txs_view(txs@), p as int)),
        decreases n - k,
    {
        match read_tx(data, p) {
            Some((t, q)) => {
                txs.push(t);
                p = q;
                k += 1;
                assert(txs_view(txs@) =~= txs_view(txs@.drop_last()).push(t@));
            },
            None => {
                proof {
                    lemma_txs_none(data@, p2 as int, (k + 1) as nat, n as nat);
                }
                return None;
            },
        }
    }
    if p != data.len() {
        return None;
    }
    Some(Block { header, txdata: txs })
}

} // verus!
