//! Small conversions shared by the samplers.

use vstd::prelude::*;

verus! {

/// The first four bytes of `bytes`, with NUL bytes where `bytes` is shorter.
pub open spec fn spec_pop_4u8(bytes: Seq<u8>) -> Seq<u8> {
    Seq::new(
        4,
        |i: int|
            if i < bytes.len() {
                bytes[i]
            } else {
                0u8
            },
    )
}

/// Copies the start of `bytes` into a field of four bytes, left-justified
/// and padded with NUL bytes.
pub fn pop_4u8(bytes: &[u8]) -> (r: [u8; 4])
    ensures
        r@ == spec_pop_4u8(bytes@),
{
    let n: usize = bytes.len();
    let b0: u8 = if n > 0 {
        bytes[0]
    } else {
        0
    };
    let b1: u8 = if n > 1 {
        bytes[1]
    } else {
        0
    };
    let b2: u8 = if n > 2 {
        bytes[2]
    } else {
        0
    };
    let b3: u8 = if n > 3 {
        bytes[3]
    } else {
        0
    };
    [b0, b1, b2, b3]
}

} // verus!
