//! Fixed-width bit-set packing and unpacking.
//!
//! The wire protocol stores the mouse-button/control flags in one byte and
//! the keyboard state in one 64-bit word. These helpers expose each word as
//! an ordered sequence of booleans, index 0 being the least significant bit.

use vstd::prelude::*;

verus! {

/// True when bit `i` of `v` is set, counting from the least significant bit.
/// Indices outside `0..8` read as unset.
pub open spec fn bit8(v: u8, i: int) -> bool {
    0 <= i < 8 && ((v >> (i as u8)) & 1) == 1
}

/// True when bit `i` of `v` is set, counting from the least significant bit.
/// Indices outside `0..64` read as unset.
pub open spec fn bit64(v: u64, i: int) -> bool {
    0 <= i < 64 && ((v >> (i as u64)) & 1) == 1
}

/// The eight bits of `v`, least significant first.
pub open spec fn bits_of_u8(v: u8) -> Seq<bool> {
    Seq::new(8, |i: int| bit8(v, i))
}

/// The sixty-four bits of `v`, least significant first.
pub open spec fn bits_of_u64(v: u64) -> Seq<bool> {
    Seq::new(64, |i: int| bit64(v, i))
}

/// Unpack a byte into one boolean per bit, least significant bit first.
pub fn u8_to_bools(v: u8) -> (r: Vec<bool>)
    ensures
        r@ == bits_of_u8(v),
{
    let mut r: Vec<bool> = Vec::new();
    let mut i: u8 = 0;
    while i < 8
        invariant
            i <= 8,
            r@ == bits_of_u8(v).take(i as int),
        decreases 8 - i,
    {
        r.push(((v >> i) & 1) == 1);
        assert(r@ == bits_of_u8(v).take(i + 1));
        i = i + 1;
    }
    assert(bits_of_u8(v).take(8) == bits_of_u8(v));
    r
}

/// Unpack a 64-bit word into one boolean per bit, least significant bit first.
pub fn u64_to_bools(v: u64) -> (r: Vec<bool>)
    ensures
        r@ == bits_of_u64(v),
{
    let mut r: Vec<bool> = Vec::new();
    let mut i: u64 = 0;
    while i < 64
        invariant
            i <= 64,
            r@ == bits_of_u64(v).take(i as int),
        decreases 64 - i,
    {
        r.push(((v >> i) & 1) == 1);
        assert(r@ == bits_of_u64(v).take(i + 1));
        i = i + 1;
    }
    assert(bits_of_u64(v).take(64) == bits_of_u64(v));
    r
}

/// Setting one bit leaves every other bit as it was.
pub proof fn lemma_bit64_or_one(v: u64, b: u64, i: int)
    requires
        b < 64,
    ensures
        bit64(v | (1u64 << b), i) == (bit64(v, i) || i == b),
{
    if 0 <= i < 64 {
        let iu = i as u64;
        assert((((v | (1u64 << b)) >> iu) & 1 == 1) == (((v >> iu) & 1 == 1) || iu == b))
            by (bit_vector)
            requires
                b < 64,
                iu < 64,
        ;
    }
}

/// A word with no bits set reads as all-false.
pub proof fn lemma_bit64_zero(i: int)
    ensures
        !bit64(0u64, i),
{
    if 0 <= i < 64 {
        let iu = i as u64;
        assert(((0u64 >> iu) & 1) != 1) by (bit_vector);
    }
}

/// A byte with no bits set reads as all-false.
pub proof fn lemma_bit8_zero(i: int)
    ensures
        !bit8(0u8, i),
{
    if 0 <= i < 8 {
        let iu = i as u8;
        assert(((0u8 >> iu) & 1) != 1) by (bit_vector);
    }
}

/// Masking a byte with `0b111` keeps the three low bits and clears the rest.
pub proof fn lemma_bit8_mask7(v: u8, i: int)
    ensures
        bit8(v & 7, i) == (0 <= i < 3 && bit8(v, i)),
{
    if 0 <= i < 8 {
        let iu = i as u8;
        assert((((v & 7) >> iu) & 1 == 1) == (iu < 3 && ((v >> iu) & 1 == 1)))
            by (bit_vector)
            requires
                iu < 8,
        ;
    }
}

} // verus!
