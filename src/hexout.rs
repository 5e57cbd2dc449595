//! Hexadecimal text of a block's wire encoding, for manual submission.
use vstd::prelude::*;

use crate::encode::{block_bytes, block_encoding};
use crate::types::Block;

verus! {

/// The lowercase hexadecimal digit of a value below 16.
pub open spec fn hex_digit(v: u8) -> char {
    if v < 10 {
        (('0' as u8) + v) as char
    } else {
        (('a' as u8) + (v - 10)) as char
    }
}

/// Two lowercase hexadecimal digits per byte, the high one first.
pub open spec fn hex_of(b: Seq<u8>) -> Seq<char>
    decreases b.len(),
{
    if b.len() == 0 {
        Seq::empty()
    } else {
        hex_of(b.drop_last()) + seq![hex_digit(b.last() / 16), hex_digit(b.last() % 16)]
    }
}

/// Relies on `hex::encode`: two lowercase digits for each byte, in order.
#[verifier::external_body]
fn to_hex(b: &[u8]) -> (r: String)
    ensures
        r@ == hex_of(b@),
{
    hex::encode(b)
}

/// The block's wire encoding as lowercase hexadecimal text.
pub fn block_hex(block: &Block) -> (r: String)
    ensures
        r@ == hex_of(block_bytes(block@.header, block@.txdata)),
{
    let bytes = block_encoding(block);
    to_hex(bytes.as_slice())
}

} // verus!
