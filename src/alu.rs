//! What each arithmetic, logic, rotate and shift instruction computes: the
//! result and the new flag byte.
use vstd::prelude::*;
use crate::flags::{flag_c, flag_h, flag_n, flag_z, flags_byte, make_flags, carry_of, half_carry_of, subtract_of, zero_of};

verus! {

pub open spec fn b2i(b: bool) -> int {
    if b { 1 } else { 0 }
}

/// ADD / ADC: `a + v + carry_in`.
pub open spec fn add8(a: u8, v: u8, carry_in: bool) -> (u8, u8) {
    let sum = a + v + b2i(carry_in);
    let r = (sum % 256) as u8;
    (r, flags_byte(r == 0, false, a % 16 + v % 16 + b2i(carry_in) > 15, sum > 255))
}

/// SUB / SBC / CP: `a - v - carry_in`.
pub open spec fn sub8(a: u8, v: u8, carry_in: bool) -> (u8, u8) {
    let diff = a - v - b2i(carry_in);
    let r = ((diff + 256) % 256) as u8;
    (r, flags_byte(r == 0, true, a % 16 < v % 16 + b2i(carry_in), a < v + b2i(carry_in)))
}

pub open spec fn and8(a: u8, v: u8) -> (u8, u8) {
    let r = a & v;
    (r, flags_byte(r == 0, false, true, false))
}

pub open spec fn or8(a: u8, v: u8) -> (u8, u8) {
    let r = a | v;
    (r, flags_byte(r == 0, false, false, false))
}

pub open spec fn xor8(a: u8, v: u8) -> (u8, u8) {
    let r = a ^ v;
    (r, flags_byte(r == 0, false, false, false))
}

/// INC r8: C is kept.
pub open spec fn inc8(v: u8, f: u8) -> (u8, u8) {
    let r = ((v + 1) % 256) as u8;
    (r, flags_byte(r == 0, false, v % 16 == 15, flag_c(f)))
}

/// DEC r8: C is kept.
pub open spec fn dec8(v: u8, f: u8) -> (u8, u8) {
    let r = ((v + 255) % 256) as u8;
    (r, flags_byte(r == 0, true, v % 16 == 0, flag_c(f)))
}

/// ADD HL,rr: Z is kept.
pub open spec fn add16(hl: u16, v: u16, f: u8) -> (u16, u8) {
    let r = ((hl + v) % 65536) as u16;
    (r, flags_byte(flag_z(f), false, hl % 4096 + v % 4096 > 4095, hl + v > 65535))
}

/// The signed value of an offset byte.
pub open spec fn signed8(e: u8) -> int {
    if e < 128 { e as int } else { e - 256 }
}

/// ADD SP,e and LD HL,SP+e: carries are taken over the low byte.
pub open spec fn add_sp(sp: u16, e: u8) -> (u16, u8) {
    let r = ((sp + signed8(e) + 65536) % 65536) as u16;
    (r, flags_byte(false, false, sp % 16 + e % 16 > 15, sp % 256 + e > 255))
}

/// DAA: decimal adjustment of A after a BCD addition or subtraction.
pub open spec fn daa(a: u8, f: u8) -> (u8, u8) {
    if !flag_n(f) {
        let hi_fix = flag_c(f) || a > 0x99;
        let a1 = if hi_fix { a + 0x60 } else { a as int };
        let lo_fix = flag_h(f) || a % 16 > 9;
        let a2 = if lo_fix { a1 + 0x06 } else { a1 };
        let r = (a2 % 256) as u8;
        (r, flags_byte(r == 0, false, false, hi_fix))
    } else {
        let a1 = if flag_c(f) { a - 0x60 } else { a as int };
        let a2 = if flag_h(f) { a1 - 0x06 } else { a1 };
        let r = ((a2 + 512) % 256) as u8;
        (r, flags_byte(r == 0, true, false, flag_c(f)))
    }
}

/// RLC: rotate left, bit 7 goes to bit 0 and to C.
pub open spec fn rlc(v: u8, set_zero: bool) -> (u8, u8) {
    let r = ((v * 2) % 256 + v / 128) as u8;
    (r, flags_byte(set_zero && r == 0, false, false, v >= 128))
}

/// RRC: rotate right, bit 0 goes to bit 7 and to C.
pub open spec fn rrc(v: u8, set_zero: bool) -> (u8, u8) {
    let r = (v / 2 + (v % 2) * 128) as u8;
    (r, flags_byte(set_zero && r == 0, false, false, v % 2 == 1))
}

/// RL: rotate left through the carry.
pub open spec fn rl(v: u8, f: u8, set_zero: bool) -> (u8, u8) {
    let r = ((v * 2) % 256 + b2i(flag_c(f))) as u8;
    (r, flags_byte(set_zero && r == 0, false, false, v >= 128))
}

/// RR: rotate right through the carry.
pub open spec fn rr(v: u8, f: u8, set_zero: bool) -> (u8, u8) {
    let r = (v / 2 + b2i(flag_c(f)) * 128) as u8;
    (r, flags_byte(set_zero && r == 0, false, false, v % 2 == 1))
}

/// SLA: shift left, bit 0 becomes zero.
pub open spec fn sla(v: u8) -> (u8, u8) {
    let r = ((v * 2) % 256) as u8;
    (r, flags_byte(r == 0, false, false, v >= 128))
}

/// SRA: shift right, bit 7 is kept.
pub open spec fn sra(v: u8) -> (u8, u8) {
    let r = (v / 2 + (if v >= 128 { 128int } else { 0int })) as u8;
    (r, flags_byte(r == 0, false, false, v % 2 == 1))
}

/// SRL: shift right, bit 7 becomes zero.
pub open spec fn srl(v: u8) -> (u8, u8) {
    let r = (v / 2) as u8;
    (r, flags_byte(r == 0, false, false, v % 2 == 1))
}

/// SWAP: exchange the two nibbles.
pub open spec fn swap(v: u8) -> (u8, u8) {
    let r = ((v % 16) * 16 + v / 16) as u8;
    (r, flags_byte(r == 0, false, false, false))
}

/// BIT b: Z is the complement of the bit, C is kept.
pub open spec fn bit_test(v: u8, bit: u8, f: u8) -> u8 {
    flags_byte(!crate::bits::bit_of(v, bit), false, true, flag_c(f))
}

pub fn alu_add(a: u8, v: u8, carry_in: bool) -> (r: (u8, u8))
    ensures
        r == add8(a, v, carry_in),
{
    let ci: u16 = if carry_in { 1 } else { 0 };
    let sum: u16 = a as u16 + v as u16 + ci;
    let res = (sum % 256) as u8;
    let f = make_flags(res == 0, false, (a % 16) as u16 + (v % 16) as u16 + ci > 15, sum > 255);
    (res, f)
}

pub fn alu_sub(a: u8, v: u8, carry_in: bool) -> (r: (u8, u8))
    ensures
        r == sub8(a, v, carry_in),
{
    let ci: u16 = if carry_in { 1 } else { 0 };
    let res = ((a as u16 + 256 - v as u16 - ci) % 256) as u8;
    let f = make_flags(res == 0, true, ((a % 16) as u16) < (v % 16) as u16 + ci, (a as u16) < v as u16 + ci);
    (res, f)
}

pub fn alu_and(a: u8, v: u8) -> (r: (u8, u8))
    ensures
        r == and8(a, v),
{
    let res = a & v;
    (res, make_flags(res == 0, false, true, false))
}

pub fn alu_or(a: u8, v: u8) -> (r: (u8, u8))
    ensures
        r == or8(a, v),
{
    let res = a | v;
    (res, make_flags(res == 0, false, false, false))
}

pub fn alu_xor(a: u8, v: u8) -> (r: (u8, u8))
    ensures
        r == xor8(a, v),
{
    let res = a ^ v;
    (res, make_flags(res == 0, false, false, false))
}

pub fn alu_inc(v: u8, f: u8) -> (r: (u8, u8))
    ensures
        r == inc8(v, f),
{
    let res = v.wrapping_add(1);
    (res, make_flags(res == 0, false, v % 16 == 15, carry_of(f)))
}

pub fn alu_dec(v: u8, f: u8) -> (r: (u8, u8))
    ensures
        r == dec8(v, f),
{
    let res = v.wrapping_sub(1);
    (res, make_flags(res == 0, true, v % 16 == 0, carry_of(f)))
}

pub fn alu_add16(hl: u16, v: u16, f: u8) -> (r: (u16, u8))
    ensures
        r == add16(hl, v, f),
{
    let sum: u32 = hl as u32 + v as u32;
    let res = (sum % 65536) as u16;
    (res, make_flags(zero_of(f), false, (hl % 4096) as u32 + (v % 4096) as u32 > 4095, sum > 65535))
}

pub fn alu_add_sp(sp: u16, e: u8) -> (r: (u16, u8))
    ensures
        r == add_sp(sp, e),
{
    let res: u16 = if e < 128 {
        ((sp as u32 + e as u32) % 65536) as u16
    } else {
        ((sp as u32 + 65536 + e as u32 - 256) % 65536) as u16
    };
    let f = make_flags(false, false, (sp % 16) + (e % 16) as u16 > 15, (sp % 256) + e as u16 > 255);
    (res, f)
}

pub fn alu_daa(a: u8, f: u8) -> (r: (u8, u8))
    ensures
        r == daa(a, f),
{
    if !subtract_of(f) {
        let hi_fix = carry_of(f) || a > 0x99;
        let a1: u16 = if hi_fix { a as u16 + 0x60 } else { a as u16 };
        let lo_fix = half_carry_of(f) || a % 16 > 9;
        let a2: u16 = if lo_fix { a1 + 0x06 } else { a1 };
        let res = (a2 % 256) as u8;
        (res, make_flags(res == 0, false, false, hi_fix))
    } else {
        let a1: u16 = if carry_of(f) { a as u16 + 512 - 0x60 } else { a as u16 + 512 };
        let a2: u16 = if half_carry_of(f) { a1 - 0x06 } else { a1 };
        let res = (a2 % 256) as u8;
        (res, make_flags(res == 0, true, false, carry_of(f)))
    }
}

/// The rotate, shift and swap group of the CB table, selected by `kind`:
/// RLC, RRC, RL, RR, SLA, SRA, SWAP, SRL.
pub open spec fn shift_op(kind: u8, v: u8, f: u8) -> (u8, u8) {
    if kind == 0 {
        rlc(v, true)
    } else if kind == 1 {
        rrc(v, true)
    } else if kind == 2 {
        rl(v, f, true)
    } else if kind == 3 {
        rr(v, f, true)
    } else if kind == 4 {
        sla(v)
    } else if kind == 5 {
        sra(v)
    } else if kind == 6 {
        swap(v)
    } else {
        srl(v)
    }
}

pub fn alu_rlc(v: u8, set_zero: bool) -> (r: (u8, u8))
    ensures
        r == rlc(v, set_zero),
{
    let res = ((v as u16 * 2) % 256 + v as u16 / 128) as u8;
    (res, make_flags(set_zero && res == 0, false, false, v >= 128))
}

pub fn alu_rrc(v: u8, set_zero: bool) -> (r: (u8, u8))
    ensures
        r == rrc(v, set_zero),
{
    let res = (v as u16 / 2 + (v as u16 % 2) * 128) as u8;
    (res, make_flags(set_zero && res == 0, false, false, v % 2 == 1))
}

pub fn alu_rl(v: u8, f: u8, set_zero: bool) -> (r: (u8, u8))
    ensures
        r == rl(v, f, set_zero),
{
    let ci: u16 = if carry_of(f) { 1 } else { 0 };
    let res = ((v as u16 * 2) % 256 + ci) as u8;
    (res, make_flags(set_zero && res == 0, false, false, v >= 128))
}

pub fn alu_rr(v: u8, f: u8, set_zero: bool) -> (r: (u8, u8))
    ensures
        r == rr(v, f, set_zero),
{
    let ci: u16 = if carry_of(f) { 1 } else { 0 };
    let res = (v as u16 / 2 + ci * 128) as u8;
    (res, make_flags(set_zero && res == 0, false, false, v % 2 == 1))
}

pub fn alu_shift(kind: u8, v: u8, f: u8) -> (r: (u8, u8))
    requires
        kind < 8,
    ensures
        r == shift_op(kind, v, f),
{
    if kind == 0 {
        alu_rlc(v, true)
    } else if kind == 1 {
        alu_rrc(v, true)
    } else if kind == 2 {
        alu_rl(v, f, true)
    } else if kind == 3 {
        alu_rr(v, f, true)
    } else if kind == 4 {
        let res = ((v as u16 * 2) % 256) as u8;
        (res, make_flags(res == 0, false, false, v >= 128))
    } else if kind == 5 {
        let res = (v as u16 / 2 + (if v >= 128 { 128u16 } else { 0u16 })) as u8;
        (res, make_flags(res == 0, false, false, v % 2 == 1))
    } else if kind == 6 {
        let res = ((v as u16 % 16) * 16 + v as u16 / 16) as u8;
        (res, make_flags(res == 0, false, false, false))
    } else {
        let res = v / 2;
        (res, make_flags(res == 0, false, false, v % 2 == 1))
    }
}

/// RL then RR gives back the byte and the carry flag; RLC then RRC gives
/// back the byte.
pub proof fn lemma_rotate_round_trip(v: u8, f: u8)
    ensures
        rr(rl(v, f, false).0, rl(v, f, false).1, false).0 == v,
        flag_c(rr(rl(v, f, false).0, rl(v, f, false).1, false).1) == flag_c(f),
        rrc(rlc(v, false).0, false).0 == v,
        rr(rl(v, f, true).0, rl(v, f, true).1, true).0 == v,
        rrc(rlc(v, true).0, true).0 == v,
{
    crate::flags::lemma_flags_byte(false, false, false, v >= 128);
    crate::flags::lemma_flags_byte(false, false, false, v % 2 == 1);
    crate::flags::lemma_flags_byte(false, false, false, ((v * 2) % 256 + b2i(flag_c(f))) % 2 == 1);
    crate::flags::lemma_flags_byte(((v * 2) % 256 + b2i(flag_c(f))) == 0, false, false, v >= 128);
    crate::flags::lemma_flags_byte(((v * 2) % 256 + v / 128) == 0, false, false, v >= 128);
}

/// INC of 0xFF gives 0x00 with Z and H set; DEC of 0x00 gives 0xFF with N
/// and H set and Z clear.
pub proof fn lemma_inc_dec_bounds(f: u8)
    ensures
        inc8(0xFF, f).0 == 0x00,
        flag_z(inc8(0xFF, f).1),
        flag_h(inc8(0xFF, f).1),
        dec8(0x00, f).0 == 0xFF,
        !flag_z(dec8(0x00, f).1),
        flag_n(dec8(0x00, f).1),
        flag_h(dec8(0x00, f).1),
{
    crate::flags::lemma_flags_byte(true, false, true, flag_c(f));
    crate::flags::lemma_flags_byte(false, true, true, flag_c(f));
}

/// ADD HL,HL with HL = 0x8000 gives 0x0000 with C set and H clear.
pub proof fn lemma_add_hl_overflow(f: u8)
    ensures
        add16(0x8000, 0x8000, f).0 == 0,
        flag_c(add16(0x8000, 0x8000, f).1),
        !flag_h(add16(0x8000, 0x8000, f).1),
        !flag_n(add16(0x8000, 0x8000, f).1),
{
    crate::flags::lemma_flags_byte(flag_z(f), false, false, true);
}

} // verus!
