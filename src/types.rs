//! Transactions, headers and blocks as plain values, with their views.
use vstd::prelude::*;

verus! {

/// A reference to an output of an earlier transaction.
#[derive(Clone, Copy, Debug, PartialEq, Eq)]
pub struct OutPoint {
    pub txid: [u8; 32],
    pub vout: u32,
}

/// A transaction input with its witness stack.
#[derive(Clone, Debug, PartialEq, Eq)]
pub struct TxIn {
    pub previous_output: OutPoint,
    pub script_sig: Vec<u8>,
    pub sequence: u32,
    pub witness: Vec<Vec<u8>>,
}

/// A transaction output.
#[derive(Clone, Debug, PartialEq, Eq)]
pub struct TxOut {
    pub value: u64,
    pub script_pubkey: Vec<u8>,
}

/// A transaction.
#[derive(Clone, Debug, PartialEq, Eq)]
pub struct Transaction {
    pub version: i32,
    pub lock_time: u32,
    pub input: Vec<TxIn>,
    pub output: Vec<TxOut>,
}

/// A block header.
#[derive(Clone, Copy, Debug, PartialEq, Eq)]
pub struct Header {
    pub version: i32,
    pub prev_blockhash: [u8; 32],
    pub merkle_root: [u8; 32],
    pub time: u32,
    pub bits: u32,
    pub nonce: u32,
}

/// A block: a header and its ordered transactions, the coinbase first.
#[derive(Clone, Debug, PartialEq, Eq)]
pub struct Block {
    pub header: Header,
    pub txdata: Vec<Transaction>,
}

pub struct TxInView {
    pub prev_txid: Seq<u8>,
    pub prev_vout: u32,
    pub script_sig: Seq<u8>,
    pub sequence: u32,
    pub witness: Seq<Seq<u8>>,
}

pub struct TxOutView {
    pub value: u64,
    pub script_pubkey: Seq<u8>,
}

pub struct TxView {
    pub version: i32,
    pub lock_time: u32,
    pub input: Seq<TxInView>,
    pub output: Seq<TxOutView>,
}

pub struct HeaderView {
    pub version: i32,
    pub prev_blockhash: Seq<u8>,
    pub merkle_root: Seq<u8>,
    pub time: u32,
    pub bits: u32,
    pub nonce: u32,
}

pub struct BlockView {
    pub header: HeaderView,
    pub txdata: Seq<TxView>,
}

pub open spec fn bytes_views(s: Seq<Vec<u8>>) -> Seq<Seq<u8>> {
    s.map_values(|b: Vec<u8>| b@)
}

impl View for TxIn {
    type V = TxInView;

    open spec fn view(&self) -> TxInView {
        TxInView {
            prev_txid: self.previous_output.txid@,
            prev_vout: self.previous_output.vout,
            script_sig: self.script_sig@,
            sequence: self.sequence,
            witness: bytes_views(self.witness@),
        }
    }
}

impl View for TxOut {
    type V = TxOutView;

    open spec fn view(&self) -> TxOutView {
        TxOutView { value: self.value, script_pubkey: self.script_pubkey@ }
    }
}

impl View for Transaction {
    type V = TxView;

    open spec fn view(&self) -> TxView {
        TxView {
            version: self.version,
            lock_time: self.lock_time,
            input: self.input@.map_values(|i: TxIn| i@),
            output: self.output@.map_values(|o: TxOut| o@),
        }
    }
}

pub open spec fn txs_view(s: Seq<Transaction>) -> Seq<TxView> {
    s.map_values(|t: Transaction| t@)
}

impl View for Header {
    type V = HeaderView;

    open spec fn view(&self) -> HeaderView {
        HeaderView {
            version: self.version,
            prev_blockhash: self.prev_blockhash@,
            merkle_root: self.merkle_root@,
            time: self.time,
            bits: self.bits,
            nonce: self.nonce,
        }
    }
}

impl View for Block {
    type V = BlockView;

    open spec fn view(&self) -> BlockView {
        BlockView { header: self.header@, txdata: txs_view(self.txdata@) }
    }
}

/// A copy of a byte string.
pub fn copy_bytes(b: &Vec<u8>) -> (r: Vec<u8>)
    ensures
        r@ == b@,
{
    let mut r: Vec<u8> = Vec::with_capacity(b.len());
    let mut i: usize = 0;
    while i < b.len()
        invariant
            i <= b@.len(),
            r@ == b@.subrange(0, i as int),
        decreases b@.len() - i,
    {
        r.push(b[i]);
        i += 1;
    }
    assert(r@ =~= b@);
    r
}

/// A copy of a witness stack.
pub fn copy_stack(s: &Vec<Vec<u8>>) -> (r: Vec<Vec<u8>>)
    ensures
        bytes_views(r@) == bytes_views(s@),
{
    let mut r: Vec<Vec<u8>> = Vec::with_capacity(s.len());
    let mut i: usize = 0;
    while i < s.len()
        invariant
            i <= s@.len(),
            r@.len() == i,
            forall|k: int| 0 <= k < i ==> #[trigger] r@[k]@ == s@[k]@,
        decreases s@.len() - i,
    {
        r.push(copy_bytes(&s[i]));
        i += 1;
    }
    assert(bytes_views(r@) =~= bytes_views(s@));
    r
}

impl TxIn {
    /// A copy of this input.
    pub fn copy(&self) -> (r: TxIn)
        ensures
            r@ == self@,
    {
        TxIn {
            previous_output: self.previous_output,
            script_sig: copy_bytes(&self.script_sig),
            sequence: self.sequence,
            witness: copy_stack(&self.witness),
        }
    }
}

impl TxOut {
    /// A copy of this output.
    pub fn copy(&self) -> (r: TxOut)
        ensures
            r@ == self@,
    {
        TxOut { value: self.value, script_pubkey: copy_bytes(&self.script_pubkey) }
    }
}

impl Transaction {
    /// A copy of this transaction.
    pub fn copy(&self) -> (r: Transaction)
        ensures
            r@ == self@,
    {
        let mut input: Vec<TxIn> = Vec::with_capacity(self.input.len());
        let mut i: usize = 0;
        while i < self.input.len()
            invariant
                i <= self.input@.len(),
                input@.len() == i,
                forall|k: int| 0 <= k < i ==> #[trigger] input@[k]@ == self.input@[k]@,
            decreases self.input@.len() - i,
        {
            input.push(self.input[i].copy());
            i += 1;
        }
        let mut output: Vec<TxOut> = Vec::with_capacity(self.output.len());
        let mut j: usize = 0;
        while j < self.output.len()
            invariant
                j <= self.output@.len(),
                output@.len() == j,
                forall|k: int| 0 <= k < j ==> #[trigger] output@[k]@ == self.output@[k]@,
            decreases self.output@.len() - j,
        {
            output.push(self.output[j].copy());
            j += 1;
        }
        assert(input@.map_values(|x: TxIn| x@) =~= self.input@.map_values(|x: TxIn| x@));
        assert(output@.map_values(|x: TxOut| x@) =~= self.output@.map_values(|x: TxOut| x@));
        Transaction { version: self.version, lock_time: self.lock_time, input, output }
    }
}

} // verus!
