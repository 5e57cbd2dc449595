//! Block assembly: header fields resolved from overrides, a template and the
//! chain state; coinbase, witness commitment, merkle root and proof of work.
use vstd::prelude::*;

use crate::coinbase::{coinbase_of, create_coinbase};
use crate::commitment::{committed, prepare_commitment};
use crate::encode::{compute_txid, txid};
use crate::error::BlockError;
use crate::merkle::{compute_merkle_root, hash_views, merkle_root};
use crate::pow::{mine_header, mined_from, no_working_nonce, pow_valid, with_nonce};
use crate::types::{txs_view, Block, Header, HeaderView, Transaction, TxView};

verus! {

/// The block version of blocks that signal no version bits.
pub const VERSIONBITS_LAST_OLD_BLOCK_VERSION: i32 = 4;

/// The compact difficulty of the regtest network.
pub const REGTEST_DIFFICULTY: u32 = 0x207F_FFFF;

/// What the chain tells about its tip.
#[derive(Clone, Copy, Debug, PartialEq, Eq)]
pub struct ChainState {
    pub height: u64,
    pub best_block_hash: [u8; 32],
    pub median_time: u64,
}

/// Header fields that a caller may fix; an unset field falls back.
#[derive(Clone, Copy, Debug, PartialEq, Eq)]
pub struct BlockTemplate {
    pub version: Option<i32>,
    pub prev_blockhash: Option<[u8; 32]>,
    pub time: Option<u64>,
    pub height: Option<u64>,
    pub bits: Option<u32>,
}

/// The header fields of a block to assemble, and its height.
#[derive(Clone, Copy, Debug, PartialEq, Eq)]
pub struct HeaderFields {
    pub version: i32,
    pub prev_blockhash: [u8; 32],
    pub time: u32,
    pub height: u32,
    pub bits: u32,
}

impl BlockTemplate {
    /// A template that fixes nothing.
    pub fn empty() -> (r: BlockTemplate)
        ensures
            r.version is None && r.prev_blockhash is None && r.time is None && r.height is None
                && r.bits is None,
    {
        BlockTemplate { version: None, prev_blockhash: None, time: None, height: None, bits: None }
    }
}

/// The explicit value if there is one, else the template's, else the default.
pub open spec fn pick<T>(explicit: Option<T>, template: Option<T>, default: T) -> T {
    match explicit {
        Some(v) => v,
        None => match template {
            Some(v) => v,
            None => default,
        },
    }
}

/// Picks a field by precedence: explicit value, template value, default.
pub fn pick_field<T: Copy>(explicit: Option<T>, template: Option<T>, default: T) -> (r: T)
    ensures
        r == pick(explicit, template, default),
{
    match explicit {
        Some(v) => v,
        None => match template {
            Some(v) => v,
            None => default,
        },
    }
}

pub open spec fn max_int(a: int, b: int) -> int {
    if a >= b {
        a
    } else {
        b
    }
}

pub open spec fn resolved_height(e: BlockTemplate, t: BlockTemplate, c: ChainState) -> int {
    match e.height {
        Some(h) => h as int,
        None => match t.height {
            Some(h) => h as int,
            None => c.height + 1,
        },
    }
}

pub open spec fn resolved_time(e: BlockTemplate, t: BlockTemplate, c: ChainState, now: u64) -> int {
    match e.time {
        Some(v) => v as int,
        None => match t.time {
            Some(v) => v as int,
            None => max_int(c.median_time + 1, now as int),
        },
    }
}

pub open spec fn resolved_bits(e: BlockTemplate, t: BlockTemplate) -> u32 {
    pick(e.bits, t.bits, REGTEST_DIFFICULTY)
}

/// Compact bits that encode a positive target below 2^256: a non-negative,
/// non-zero mantissa and an exponent of at most 32.
pub open spec fn bits_well_formed(bits: u32) -> bool {
    let expt = bits >> 24u32;
    let low = bits & 0xFF_FFFFu32;
    &&& low <= 0x7F_FFFF
    &&& expt <= 32
    &&& if expt <= 3 {
        (low >> (8 * (3 - expt)) as u32) != 0
    } else {
        low != 0
    }
}

/// Whether every resolved field fits and the bits are usable.
pub open spec fn template_valid(e: BlockTemplate, t: BlockTemplate, c: ChainState, now: u64) -> bool {
    &&& resolved_height(e, t, c) <= u32::MAX
    &&& resolved_time(e, t, c, now) <= u32::MAX
    &&& bits_well_formed(resolved_bits(e, t))
}

/// The fields that resolution yields from valid inputs.
pub open spec fn resolved_fields(
    e: BlockTemplate,
    t: BlockTemplate,
    c: ChainState,
    now: u64,
) -> HeaderFields {
    HeaderFields {
        version: pick(e.version, t.version, VERSIONBITS_LAST_OLD_BLOCK_VERSION),
        prev_blockhash: pick(e.prev_blockhash, t.prev_blockhash, c.best_block_hash),
        time: resolved_time(e, t, c, now) as u32,
        height: resolved_height(e, t, c) as u32,
        bits: resolved_bits(e, t),
    }
}

/// Whether compact bits are well formed.
pub fn check_bits(bits: u32) -> (r: bool)
    ensures
        r == bits_well_formed(bits),
{
    let expt = bits >> 24u32;
    let low = bits & 0xFF_FFFFu32;
    if low > 0x7F_FFFF || expt > 32 {
        false
    } else if expt <= 3 {
        (low >> (8 * (3 - expt))) != 0
    } else {
        low != 0
    }
}

/// Resolves each header field: the explicit value, else the template's, else
/// the default (previous hash: the chain tip; time: the later of the median
/// time plus one and `now`; height: the tip's plus one; version 4; the regtest
/// difficulty). Fails where the height or time does not fit 32 bits or the
/// bits are not well formed.
pub fn resolve_template(
    explicit: &BlockTemplate,
    template: &BlockTemplate,
    chain: &ChainState,
    now: u64,
) -> (r: Result<HeaderFields, BlockError>)
    ensures
        r is Ok <==> template_valid(*explicit, *template, *chain, now),
        r is Ok ==> r->Ok_0 == resolved_fields(*explicit, *template, *chain, now),
        r is Err ==> r == Err::<HeaderFields, BlockError>(BlockError::InvalidTemplateField),
{
    let height: u64 = match explicit.height {
        Some(h) => h,
        None => match template.height {
            Some(h) => h,
            None => {
                if chain.height >= u32::MAX as u64 {
                    return Err(BlockError::InvalidTemplateField);
                }
                chain.height + 1
            },
        },
    };
    if height > u32::MAX as u64 {
        return Err(BlockError::InvalidTemplateField);
    }
    let time: u64 = match explicit.time {
        Some(v) => v,
        None => match template.time {
            Some(v) => v,
            None => {
                if chain.median_time >= u32::MAX as u64 {
                    return Err(BlockError::InvalidTemplateField);
                }
                if now > chain.median_time + 1 {
                    now
                } else {
                    chain.median_time + 1
                }
            },
        },
    };
    if time > u32::MAX as u64 {
        return Err(BlockError::InvalidTemplateField);
    }
    let bits = pick_field(explicit.bits, template.bits, REGTEST_DIFFICULTY);
    if !check_bits(bits) {
        return Err(BlockError::InvalidTemplateField);
    }
    Ok(
        HeaderFields {
            version: pick_field(explicit.version, template.version, VERSIONBITS_LAST_OLD_BLOCK_VERSION),
            prev_blockhash: pick_field(explicit.prev_blockhash, template.prev_blockhash, chain.best_block_hash),
            time: time as u32,
            height: height as u32,
            bits,
        },
    )
}

/// The transaction ids of a list of transactions.
pub open spec fn txids(txs: Seq<TxView>) -> Seq<Seq<u8>> {
    Seq::new(txs.len(), |i: int| txid(txs[i]))
}

/// The transaction ids, computed.
pub fn compute_txids(txs: &Vec<Transaction>) -> (r: Vec<[u8; 32]>)
    ensures
        r@.len() == txs@.len(),
        hash_views(r@) == txids(txs_view(txs@)),
{
    let mut r: Vec<[u8; 32]> = Vec::with_capacity(txs.len());
    let mut k: usize = 0;
    while k < txs.len()
        invariant
            k <= txs@.len(),
            r@.len() == k,
            forall|j: int| 0 <= j < k ==> #[trigger] r@[j]@ == txids(txs_view(txs@))[j],
        decreases txs@.len() - k,
    {
        r.push(compute_txid(&txs[k]));
        k += 1;
    }
    assert(hash_views(r@) =~= txids(txs_view(txs@)));
    r
}

/// The merkle root of a non-empty list of transactions' ids.
pub open spec fn txs_merkle_root(txs: Seq<TxView>) -> Seq<u8> {
    merkle_root(txids(txs))
}

/// Sets the header's merkle root to that of the block's transactions.
pub fn update_merkle_root(block: &mut Block)
    requires
        old(block).txdata@.len() >= 1,
    ensures
        final(block)@.txdata == old(block)@.txdata,
        final(block)@.header == (HeaderView {
            merkle_root: txs_merkle_root(old(block)@.txdata),
            ..old(block)@.header
        }),
{
    let ids = compute_txids(&block.txdata);
    block.header.merkle_root = compute_merkle_root(&ids);
}

/// Mines the block from nonce zero; on failure the block is unchanged.
pub fn mine_block(block: &mut Block) -> (r: Result<(), BlockError>)
    ensures
        final(block)@.txdata == old(block)@.txdata,
        r is Ok <==> !no_working_nonce(with_nonce(old(block)@.header, 0)),
        r is Ok ==> mined_from(final(block)@.header, with_nonce(old(block)@.header, 0)),
        r is Err ==> r == Err::<(), BlockError>(BlockError::ProofOfWorkExhausted)
            && final(block)@ == old(block)@,
{
    let mut header = block.header;
    header.nonce = 0;
    assert(header@ == with_nonce(old(block)@.header, 0));
    match mine_header(&mut header) {
        Ok(()) => {
            block.header = header;
            Ok(())
        },
        Err(e) => Err(e),
    }
}

/// The transactions of an assembled block: the coinbase for `height`, then
/// the extra transactions, with the witness commitment in the coinbase.
pub open spec fn assembled_txs(height: u32, extra: Seq<TxView>) -> Seq<TxView> {
    committed(seq![coinbase_of(height)] + extra)
}

/// The header of an assembled block before mining: the resolved fields, the
/// merkle root of its transactions and nonce zero.
pub open spec fn unmined_header(f: HeaderFields, txs: Seq<TxView>) -> HeaderView {
    HeaderView {
        version: f.version,
        prev_blockhash: f.prev_blockhash@,
        merkle_root: txs_merkle_root(txs),
        time: f.time,
        bits: f.bits,
        nonce: 0,
    }
}

/// The block that assembly yields, apart from mining, from resolved fields.
pub open spec fn assembled_base(f: HeaderFields, extra: Seq<TxView>) -> HeaderView {
    unmined_header(f, assembled_txs(f.height, extra))
}

/// Assembles a block from resolved header fields and extra transactions: the
/// coinbase first, its witness commitment, the merkle root, then a nonce that
/// meets the target.
pub fn assemble_block(fields: &HeaderFields, extra_txs: Vec<Transaction>) -> (r: Result<Block, BlockError>)
    ensures
        r is Ok <==> !no_working_nonce(assembled_base(*fields, txs_view(extra_txs@))),
        r is Ok ==> r->Ok_0@.txdata == assembled_txs(fields.height, txs_view(extra_txs@))
            && mined_from(r->Ok_0@.header, assembled_base(*fields, txs_view(extra_txs@))),
        r is Err ==> r == Err::<Block, BlockError>(BlockError::ProofOfWorkExhausted),
{
    let ghost extra_view = txs_view(extra_txs@);
    let mut extra = extra_txs;
    let mut txs: Vec<Transaction> = Vec::new();
    txs.push(create_coinbase(fields.height));
    txs.append(&mut extra);
    assert(txs_view(txs@) =~= seq![coinbase_of(fields.height)] + extra_view);
    let ghost plain = txs_view(txs@);
    assert(plain[0] == coinbase_of(fields.height));
    assert(plain[0].input[0].witness[0] =~= Seq::new(32, |j: int| 0u8));
    let committed_ok = prepare_commitment(&mut txs);
    assert(committed_ok is Ok);
    assert(txs_view(txs@).len() == plain.len());
    let header = Header {
        version: fields.version,
        prev_blockhash: fields.prev_blockhash,
        merkle_root: [0u8; 32],
        time: fields.time,
        bits: fields.bits,
        nonce: 0,
    };
    let mut block = Block { header, txdata: txs };
    update_merkle_root(&mut block);
    assert(block@.header == assembled_base(*fields, extra_view));
    match mine_block(&mut block) {
        Ok(()) => Ok(block),
        Err(e) => Err(e),
    }
}

/// Assembles a valid block: resolves the header fields (explicit value, then
/// template, then default), builds the coinbase for the resolved height ahead
/// of `extra_txs`, writes the witness commitment, sets the merkle root and
/// mines the header.
pub fn create_block(
    explicit: &BlockTemplate,
    template: &BlockTemplate,
    chain: &ChainState,
    now: u64,
    extra_txs: Vec<Transaction>,
) -> (r: Result<Block, BlockError>)
    ensures
        !template_valid(*explicit, *template, *chain, now) ==> r == Err::<Block, BlockError>(
            BlockError::InvalidTemplateField,
        ),
        template_valid(*explicit, *template, *chain, now) ==> {
            let f = resolved_fields(*explicit, *template, *chain, now);
            let base = assembled_base(f, txs_view(extra_txs@));
            &&& r is Ok <==> !no_working_nonce(base)
            &&& r is Ok ==> r->Ok_0@.txdata == assembled_txs(f.height, txs_view(extra_txs@))
                && mined_from(r->Ok_0@.header, base)
            &&& r is Err ==> r == Err::<Block, BlockError>(BlockError::ProofOfWorkExhausted)
        },
{
    let fields = match resolve_template(explicit, template, chain, now) {
        Ok(f) => f,
        Err(e) => return Err(e),
    };
    assemble_block(&fields, extra_txs)
}

/// An assembled block commits to its transactions: the merkle root in its
/// header is the merkle root of its transactions' ids.
pub proof fn lemma_assembled_merkle_root(f: HeaderFields, extra: Seq<TxView>, h: HeaderView)
    requires
        mined_from(h, assembled_base(f, extra)),
    ensures
        h.merkle_root == txs_merkle_root(assembled_txs(f.height, extra)),
{
}

/// An assembled block's header meets the target that its own bits encode.
pub proof fn lemma_assembled_meets_target(f: HeaderFields, extra: Seq<TxView>, h: HeaderView)
    requires
        mined_from(h, assembled_base(f, extra)),
    ensures
        pow_valid(h),
        h.bits == f.bits,
{
}

} // verus!
