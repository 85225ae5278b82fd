//! The arithmetic of one group: three bytes are twenty-four bits, and the same
//! twenty-four bits are four six-bit values.

use vstd::prelude::*;

verus! {

/// The `k`-th six-bit value, for `k` in `0..4`, of the group of bytes `b0 b1 b2`.
///
/// Reading the three bytes as one number of twenty-four bits, most significant
/// byte first, these are its four digits in base 64. In bit operations they
/// are `b0 >> 2`, `((b0 & 0x3) << 4) | (b1 >> 4)`, `((b1 & 0xF) << 2) | (b2 >> 6)`
/// and `b2 & 0x3F`.
pub open spec fn sextet_of(b0: u8, b1: u8, b2: u8, k: int) -> u8 {
    if k == 0 {
        (b0 / 4) as u8
    } else if k == 1 {
        ((b0 % 4) * 16 + b1 / 16) as u8
    } else if k == 2 {
        ((b1 % 16) * 4 + b2 / 64) as u8
    } else {
        (b2 % 64) as u8
    }
}

/// The `k`-th byte, for `k` in `0..3`, of the group with the six-bit values
/// `v0 v1 v2 v3`, each below 64. In bit operations the three bytes are
/// `(v0 << 2) | (v1 >> 4)`, `((v1 & 0xF) << 4) | (v2 >> 2)` and
/// `((v2 & 0x3) << 6) | v3`.
pub open spec fn octet_of(v0: u8, v1: u8, v2: u8, v3: u8, k: int) -> u8 {
    if k == 0 {
        (v0 * 4 + v1 / 16) as u8
    } else if k == 1 {
        ((v1 % 16) * 16 + v2 / 4) as u8
    } else {
        ((v2 % 4) * 64 + v3) as u8
    }
}

/// Splits three bytes into their four six-bit values.
pub fn split(b0: u8, b1: u8, b2: u8) -> (v: (u8, u8, u8, u8))
    ensures
        v.0 == sextet_of(b0, b1, b2, 0),
        v.1 == sextet_of(b0, b1, b2, 1),
        v.2 == sextet_of(b0, b1, b2, 2),
        v.3 == sextet_of(b0, b1, b2, 3),
        v.0 < 64 && v.1 < 64 && v.2 < 64 && v.3 < 64,
{
    let v0 = b0 >> 2;
    let v1 = ((b0 & 0x3) << 4) | (b1 >> 4);
    let v2 = ((b1 & 0xF) << 2) | (b2 >> 6);
    let v3 = b2 & 0x3F;
    assert(b0 >> 2 == b0 / 4) by (bit_vector);
    assert(((b0 & 0x3) << 4) | (b1 >> 4) == (b0 % 4) * 16 + b1 / 16) by (bit_vector);
    assert(((b1 & 0xF) << 2) | (b2 >> 6) == (b1 % 16) * 4 + b2 / 64) by (bit_vector);
    assert(b2 & 0x3F == b2 % 64) by (bit_vector);
    (v0, v1, v2, v3)
}

/// Joins four six-bit values into the three bytes that they spell.
pub fn stitch(v0: u8, v1: u8, v2: u8, v3: u8) -> (b: (u8, u8, u8))
    requires
        v0 < 64 && v1 < 64 && v2 < 64 && v3 < 64,
    ensures
        b.0 == octet_of(v0, v1, v2, v3, 0),
        b.1 == octet_of(v0, v1, v2, v3, 1),
        b.2 == octet_of(v0, v1, v2, v3, 2),
{
    let b0 = (v0 << 2) | (v1 >> 4);
    let b1 = ((v1 & 0xF) << 4) | (v2 >> 2);
    let b2 = ((v2 & 0x3) << 6) | v3;
    assert((v0 << 2) | (v1 >> 4) == v0 * 4 + v1 / 16) by (bit_vector)
        requires
            v0 < 64 && v1 < 64,
    ;
    assert(((v1 & 0xF) << 4) | (v2 >> 2) == (v1 % 16) * 16 + v2 / 4) by (bit_vector)
        requires
            v2 < 64,
    ;
    assert(((v2 & 0x3) << 6) | v3 == (v2 % 4) * 64 + v3) by (bit_vector)
        requires
            v3 < 64,
    ;
    (b0, b1, b2)
}

/// Splitting three bytes and joining the four values gives the bytes back.
pub proof fn lemma_stitch_split(b0: u8, b1: u8, b2: u8)
    ensures
        ({
            let v0 = sextet_of(b0, b1, b2, 0);
            let v1 = sextet_of(b0, b1, b2, 1);
            let v2 = sextet_of(b0, b1, b2, 2);
            let v3 = sextet_of(b0, b1, b2, 3);
            &&& v0 < 64 && v1 < 64 && v2 < 64 && v3 < 64
            &&& octet_of(v0, v1, v2, v3, 0) == b0
            &&& octet_of(v0, v1, v2, v3, 1) == b1
            &&& octet_of(v0, v1, v2, v3, 2) == b2
        }),
{
}

} // verus!
