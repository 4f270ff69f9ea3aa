//! The flag register F: Z at bit 7, N at bit 6, H at bit 5, C at bit 4.
use vstd::prelude::*;
use crate::bits::bit_of;

verus! {

/// The flag byte with the four given flags and a zero low nibble.
pub open spec fn flags_byte(z: bool, n: bool, h: bool, c: bool) -> u8 {
    ((if z { 0x80u8 } else { 0u8 }) + (if n { 0x40u8 } else { 0u8 }) + (if h { 0x20u8 } else { 0u8 })
        + (if c { 0x10u8 } else { 0u8 })) as u8
}

pub open spec fn flag_z(f: u8) -> bool {
    bit_of(f, 7)
}

pub open spec fn flag_n(f: u8) -> bool {
    bit_of(f, 6)
}

pub open spec fn flag_h(f: u8) -> bool {
    bit_of(f, 5)
}

pub open spec fn flag_c(f: u8) -> bool {
    bit_of(f, 4)
}

pub proof fn lemma_flags_byte(z: bool, n: bool, h: bool, c: bool)
    ensures
        flag_z(flags_byte(z, n, h, c)) == z,
        flag_n(flags_byte(z, n, h, c)) == n,
        flag_h(flags_byte(z, n, h, c)) == h,
        flag_c(flags_byte(z, n, h, c)) == c,
        flags_byte(z, n, h, c) % 16 == 0,
{
    let f = flags_byte(z, n, h, c);
    assert(bit_of(f, 7) == z && bit_of(f, 6) == n && bit_of(f, 5) == h && bit_of(f, 4) == c
        && f % 16 == 0) by (bit_vector)
        requires
            f == ((if z { 0x80u8 } else { 0u8 }) + (if n { 0x40u8 } else { 0u8 }) + (if h { 0x20u8 } else { 0u8 })
                + (if c { 0x10u8 } else { 0u8 })) as u8,
    ;
}

/// Builds the flag byte.
pub fn make_flags(z: bool, n: bool, h: bool, c: bool) -> (r: u8)
    ensures
        r == flags_byte(z, n, h, c),
        flag_z(r) == z,
        flag_n(r) == n,
        flag_h(r) == h,
        flag_c(r) == c,
        r % 16 == 0,
{
    proof { lemma_flags_byte(z, n, h, c); }
    let mut r: u8 = 0;
    if z {
        r = r + 0x80;
    }
    if n {
        r = r + 0x40;
    }
    if h {
        r = r + 0x20;
    }
    if c {
        r = r + 0x10;
    }
    r
}

/// Reads the carry flag.
pub fn carry_of(f: u8) -> (r: bool)
    ensures
        r == flag_c(f),
{
    (f >> 4u8) & 1 == 1
}

/// Reads the half-carry flag.
pub fn half_carry_of(f: u8) -> (r: bool)
    ensures
        r == flag_h(f),
{
    (f >> 5u8) & 1 == 1
}

/// Reads the subtract flag.
pub fn subtract_of(f: u8) -> (r: bool)
    ensures
        r == flag_n(f),
{
    (f >> 6u8) & 1 == 1
}

/// Reads the zero flag.
pub fn zero_of(f: u8) -> (r: bool)
    ensures
        r == flag_z(f),
{
    (f >> 7u8) & 1 == 1
}

} // verus!
