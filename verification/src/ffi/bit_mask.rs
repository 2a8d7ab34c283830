use vstd::prelude::*;

verus! {

pub const U8_MASK1: u8 = 1;

pub const U8_MASK2: u8 = 2;

pub const U8_MASK3: u8 = 4;

pub const U8_MASK4: u8 = 8;

pub const U8_MASK5: u8 = 16;

pub const U8_MASK6: u8 = 32;

pub const U8_MASK7: u8 = 64;

pub const U8_MASK8: u8 = 128;

/// Whether `bits` and `mask` share a set bit.
pub open spec fn spec_u8_test(bits: u8, mask: u8) -> bool {
    bits & mask != 0
}

/// `bits` with every bit of `mask` set (`val`) or cleared (`!val`).
pub open spec fn spec_u8_set(bits: u8, mask: u8, val: bool) -> u8 {
    if val {
        bits | mask
    } else {
        bits & !mask
    }
}

/// A mask with exactly one bit set.
pub open spec fn is_single_bit(mask: u8) -> bool {
    mask == 1 || mask == 2 || mask == 4 || mask == 8 || mask == 16 || mask == 32 || mask == 64
        || mask == 128
}

#[verifier::when_used_as_spec(spec_u8_test)]
pub fn u8_test(bits: u8, mask: u8) -> (set: bool)
    ensures
        set == spec_u8_test(bits, mask),
{
    bits & mask != 0
}

pub fn u8_test_not(bits: u8, mask: u8) -> (clear: bool)
    ensures
        clear == !spec_u8_test(bits, mask),
{
    bits & mask == 0
}

#[verifier::when_used_as_spec(spec_u8_set)]
pub fn u8_set(bits: u8, mask: u8, val: bool) -> (out: u8)
    ensures
        out == spec_u8_set(bits, mask, val),
{
    if val {
        bits | mask
    } else {
        bits & !mask
    }
}

/// Setting or clearing one bit is seen by a test of that bit and by no test
/// of another bit.
pub proof fn lemma_set_then_test(bits: u8, mask: u8, other: u8, val: bool)
    requires
        is_single_bit(mask),
        is_single_bit(other),
    ensures
        spec_u8_test(spec_u8_set(bits, mask, val), mask) == val,
        other != mask ==> spec_u8_test(spec_u8_set(bits, mask, val), other) == spec_u8_test(
            bits,
            other,
        ),
{
    assert(mask != 0 ==> (bits | mask) & mask != 0) by (bit_vector);
    assert((bits & !mask) & mask == 0) by (bit_vector);
    assert(mask & other == 0 ==> (bits | mask) & other == bits & other) by (bit_vector);
    assert(mask & other == 0 ==> (bits & !mask) & other == bits & other) by (bit_vector);
    lemma_single_bits_disjoint(mask, other);
}

/// Two different single-bit masks share no bit.
pub proof fn lemma_single_bits_disjoint(a: u8, b: u8)
    requires
        is_single_bit(a),
        is_single_bit(b),
    ensures
        a & a == a,
        a != b ==> a & b == 0,
{
    assert(a & a == a) by (bit_vector);
    assert(is_single_bit(a) && is_single_bit(b) && a != b ==> a & b == 0) by (bit_vector);
}

} // verus!
