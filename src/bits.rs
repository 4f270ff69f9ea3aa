//! Byte and word helpers: register halves, single bits and carry tests.
use vstd::prelude::*;

verus! {

/// The high byte of a 16-bit word.
#[verifier::opaque]
pub open spec fn high_byte(w: u16) -> u8 {
    (w / 256) as u8
}

/// The low byte of a 16-bit word.
#[verifier::opaque]
pub open spec fn low_byte(w: u16) -> u8 {
    (w % 256) as u8
}

/// The word made of a high and a low byte.
#[verifier::opaque]
pub open spec fn word_of(hi: u8, lo: u8) -> u16 {
    (hi * 256 + lo) as u16
}

/// Whether bit `bit` of `v` is one.
pub open spec fn bit_of(v: u8, bit: u8) -> bool {
    (v >> bit) & 1u8 == 1u8
}

pub proof fn lemma_word_split(w: u16)
    ensures
        (w >> 8u16) as u8 == high_byte(w),
        (w & 0xFFu16) as u8 == low_byte(w),
        word_of(high_byte(w), low_byte(w)) == w,
{
    reveal(high_byte);
    reveal(low_byte);
    reveal(word_of);
    assert((w >> 8u16) as u8 == (w / 256) as u8) by (bit_vector);
    assert((w & 0xFFu16) as u8 == (w % 256) as u8) by (bit_vector);
}

pub proof fn lemma_word_join(hi: u8, lo: u8)
    ensures
        ((hi as u16) << 8u16) | (lo as u16) == word_of(hi, lo),
        high_byte(word_of(hi, lo)) == hi,
        low_byte(word_of(hi, lo)) == lo,
{
    reveal(high_byte);
    reveal(low_byte);
    reveal(word_of);
    assert(((hi as u16) << 8u16) | (lo as u16) == (hi as u16) * 256 + (lo as u16)) by (bit_vector);
}

pub proof fn lemma_bit_mask(v: u8, bit: u8)
    requires
        bit < 8,
    ensures
        ((v & (1u8 << bit)) != 0) == bit_of(v, bit),
        bit_of(v | (1u8 << bit), bit),
        !bit_of(v & !(1u8 << bit), bit),
        forall|j: u8| j < 8 && j != bit ==> #[trigger] bit_of(v | (1u8 << bit), j) == bit_of(v, j),
        forall|j: u8| j < 8 && j != bit ==> #[trigger] bit_of(v & !(1u8 << bit), j) == bit_of(v, j),
{
    assert(((v & (1u8 << bit)) != 0) == ((v >> bit) & 1u8 == 1u8)) by (bit_vector)
        requires bit < 8;
    assert(((v | (1u8 << bit)) >> bit) & 1u8 == 1u8) by (bit_vector)
        requires bit < 8;
    assert(((v & !(1u8 << bit)) >> bit) & 1u8 == 0u8) by (bit_vector)
        requires bit < 8;
    assert(forall|j: u8| j < 8 && j != bit ==> (((v | (1u8 << bit)) >> j) & 1u8 == 1u8) == ((v >> j) & 1u8 == 1u8)) by (bit_vector)
        requires bit < 8;
    assert(forall|j: u8| j < 8 && j != bit ==> (((v & !(1u8 << bit)) >> j) & 1u8 == 1u8) == ((v >> j) & 1u8 == 1u8)) by (bit_vector)
        requires bit < 8;
}

/// The two bytes of a 16-bit register pair.
pub trait Register: Sized {
    spec fn spec_hi(&self) -> u8;

    spec fn spec_lo(&self) -> u8;

    spec fn spec_from_bytes(hi: u8, lo: u8) -> Self;

    fn hi(&self) -> (r: u8)
        ensures
            r == self.spec_hi(),
    ;

    fn lo(&self) -> (r: u8)
        ensures
            r == self.spec_lo(),
    ;

    fn set_lo(&mut self, lo: u8)
        ensures
            final(self).spec_lo() == lo,
            final(self).spec_hi() == old(self).spec_hi(),
    ;

    fn set_hi(&mut self, hi: u8)
        ensures
            final(self).spec_hi() == hi,
            final(self).spec_lo() == old(self).spec_lo(),
    ;

    fn from_bytes(hi: u8, lo: u8) -> (r: Self)
        ensures
            r == Self::spec_from_bytes(hi, lo),
    ;
}

impl Register for u16 {
    open spec fn spec_hi(&self) -> u8 {
        high_byte(*self)
    }

    open spec fn spec_lo(&self) -> u8 {
        low_byte(*self)
    }

    open spec fn spec_from_bytes(hi: u8, lo: u8) -> u16 {
        word_of(hi, lo)
    }

    fn hi(&self) -> (r: u8) {
        proof { lemma_word_split(*self); }
        (*self >> 8u16) as u8
    }

    fn lo(&self) -> (r: u8) {
        proof { lemma_word_split(*self); }
        (*self & 0xFFu16) as u8
    }

    fn set_lo(&mut self, lo: u8) {
        let hi = self.hi();
        *self = u16::from_bytes(hi, lo);
        proof { lemma_word_join(hi, lo); }
    }

    fn set_hi(&mut self, hi: u8) {
        let lo = self.lo();
        *self = u16::from_bytes(hi, lo);
        proof { lemma_word_join(hi, lo); }
    }

    fn from_bytes(hi: u8, lo: u8) -> (r: u16) {
        proof { lemma_word_join(hi, lo); }
        ((hi as u16) << 8u16) | (lo as u16)
    }
}

/// Whether bit `bit` of a word is one.
pub open spec fn word_bit_of(v: u16, bit: u8) -> bool {
    (v >> bit) & 1u16 == 1u16
}

/// The mask of the bits `0..=bit` of a word.
pub open spec fn low_mask(bit: u8) -> u16 {
    ((1u32 << (bit + 1)) - 1) as u16
}

/// Whether adding `a` and `b` carries out of bit `bit`.
pub open spec fn carries_from_bit(a: u16, b: u16, bit: u8) -> bool {
    (a & low_mask(bit)) + (b & low_mask(bit)) > low_mask(bit)
}

/// Reading a single bit.
pub trait TestBit {
    spec fn spec_test_bit(&self, bit: u8) -> bool;

    fn test_bit(&self, bit: u8) -> (r: bool)
        requires
            bit < 8,
        ensures
            r == self.spec_test_bit(bit),
    ;
}

impl TestBit for u8 {
    open spec fn spec_test_bit(&self, bit: u8) -> bool {
        bit_of(*self, bit)
    }

    fn test_bit(&self, bit: u8) -> (r: bool) {
        proof { lemma_bit_mask(*self, bit); }
        (*self & (1u8 << bit)) != 0
    }
}

impl TestBit for u16 {
    open spec fn spec_test_bit(&self, bit: u8) -> bool {
        word_bit_of(*self, bit)
    }

    fn test_bit(&self, bit: u8) -> (r: bool) {
        let v = *self;
        assert(((v & (1u16 << bit)) != 0) == ((v >> bit) & 1u16 == 1u16)) by (bit_vector)
            requires bit < 8;
        (v & (1u16 << bit)) != 0
    }
}

/// Setting and clearing a single bit.
pub trait SetBit: TestBit + Sized {
    fn set_bit(&mut self, bit: u8)
        requires
            bit < 8,
        ensures
            final(self).spec_test_bit(bit),
            forall|j: u8| j < 8 && j != bit ==> #[trigger] final(self).spec_test_bit(j) == old(self).spec_test_bit(j),
    ;

    fn reset_bit(&mut self, bit: u8)
        requires
            bit < 8,
        ensures
            !final(self).spec_test_bit(bit),
            forall|j: u8| j < 8 && j != bit ==> #[trigger] final(self).spec_test_bit(j) == old(self).spec_test_bit(j),
    ;
}

impl SetBit for u8 {
    fn set_bit(&mut self, bit: u8) {
        proof { lemma_bit_mask(*self, bit); }
        *self = *self | (1u8 << bit);
    }

    fn reset_bit(&mut self, bit: u8) {
        proof { lemma_bit_mask(*self, bit); }
        *self = *self & !(1u8 << bit);
    }
}

/// Writing a single bit from a boolean.
pub trait ToggleBit: TestBit + Sized {
    fn toggle_bit(&mut self, bit: u8, value: bool)
        requires
            bit < 8,
        ensures
            final(self).spec_test_bit(bit) == value,
            forall|j: u8| j < 8 && j != bit ==> #[trigger] final(self).spec_test_bit(j) == old(self).spec_test_bit(j),
    ;
}

impl ToggleBit for u8 {
    fn toggle_bit(&mut self, bit: u8, value: bool) {
        if value {
            self.set_bit(bit);
        } else {
            self.reset_bit(bit);
        }
    }
}

/// Carry out of a given bit in an addition.
pub trait CarryTest: Sized {
    spec fn spec_add_carry_bit(&self, value: Self, bit: u8) -> bool;

    fn test_add_carry_bit(&self, value: Self, bit: u8) -> (r: bool)
        requires
            bit < 15,
        ensures
            r == self.spec_add_carry_bit(value, bit),
    ;
}

impl CarryTest for u16 {
    open spec fn spec_add_carry_bit(&self, value: u16, bit: u8) -> bool {
        carries_from_bit(*self, value, bit)
    }

    fn test_add_carry_bit(&self, value: u16, bit: u8) -> (r: bool) {
        let sh: u32 = 1u32 << (bit + 1);
        assert(1 <= sh <= 0x10000) by (bit_vector)
            requires sh == 1u32 << (bit + 1), bit < 15;
        let mask: u16 = (sh - 1) as u16;
        let a = *self & mask;
        let b = value & mask;
        assert(a <= mask && b <= mask) by (bit_vector)
            requires a == *self & mask, b == value & mask;
        (a as u32) + (b as u32) > mask as u32
    }
}

} // verus!
