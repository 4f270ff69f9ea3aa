//! What each instruction does, stated over the register file and the bus:
//! the instructions that touch registers only, those that read memory and
//! write none, those that write one byte, and those that push a word.
use vstd::prelude::*;
use crate::alu;
use crate::bits::{high_byte, low_byte, word_of};
use crate::cpu::{add16_wrap, alu_spec, CPU, FLAG_CARRY, FLAG_ZERO};
use crate::flags::{flag_c, flag_z, flags_byte};
use crate::mmu::MMU;

verus! {

/// The exact effect of the primary instructions that touch registers only
/// (no memory operand, no immediate); `None` for the others.
pub open spec fn register_effect(cpu: CPU, op: u8) -> Option<CPU> {
    if 0x40 <= op <= 0x7F {
        load_effect(cpu, op)
    } else if 0x80 <= op <= 0xBF {
        if op % 8 != 6 {
            let (a, f) = alu_spec((op / 8) % 8, cpu.a, cpu.reg(op % 8), cpu.f);
            Some(CPU { a, f, ..cpu })
        } else {
            None
        }
    } else if op < 0x40 {
        low_effect(cpu, op)
    } else if op == 0xE9 {
        Some(CPU { pc: cpu.spec_hl(), ..cpu })
    } else if op == 0xF9 {
        Some(CPU { sp: cpu.spec_hl(), ..cpu })
    } else if op == 0xF3 {
        Some(CPU { pending_interrupt: Some(false), ..cpu })
    } else if op == 0xFB {
        Some(CPU { pending_interrupt: Some(true), ..cpu })
    } else {
        None
    }
}

/// LD r,r' between registers, and HALT.
#[verifier::opaque]
pub open spec fn load_effect(cpu: CPU, op: u8) -> Option<CPU> {
    if op == 0x76 {
        Some(CPU { halted: true, ..cpu })
    } else if op % 8 != 6 && (op / 8) % 8 != 6 {
        Some(cpu.with_reg((op / 8) % 8, cpu.reg(op % 8)))
    } else {
        None
    }
}

/// The register-only instructions among 0x00-0x3F.
#[verifier::opaque]
pub open spec fn low_effect(cpu: CPU, op: u8) -> Option<CPU> {
    let row = (op / 8) % 8;
    let pair = (op / 16) % 4;
    let f = cpu.f;
    if op % 8 == 4 {
        if row != 6 {
            Some(CPU { f: alu::inc8(cpu.reg(row), f).1, ..cpu }.with_reg(row, alu::inc8(cpu.reg(row), f).0))
        } else {
            None
        }
    } else if op % 8 == 5 {
        if row != 6 {
            Some(CPU { f: alu::dec8(cpu.reg(row), f).1, ..cpu }.with_reg(row, alu::dec8(cpu.reg(row), f).0))
        } else {
            None
        }
    } else if op % 8 == 6 || op % 16 == 1 || op % 16 == 2 || op % 16 == 0x0A {
        None
    } else if op % 16 == 3 {
        Some(cpu.with_r16(pair, add16_wrap(cpu.r16(pair), 1)))
    } else if op % 16 == 0x0B {
        Some(cpu.with_r16(pair, add16_wrap(cpu.r16(pair), -1)))
    } else if op % 16 == 9 {
        let (w, g) = alu::add16(cpu.spec_hl(), cpu.r16(pair), f);
        Some(CPU { h: high_byte(w), l: low_byte(w), f: g, ..cpu })
    } else if op == 0x00 {
        Some(cpu)
    } else if op == 0x07 {
        Some(CPU { a: alu::rlc(cpu.a, false).0, f: alu::rlc(cpu.a, false).1, ..cpu })
    } else if op == 0x0F {
        Some(CPU { a: alu::rrc(cpu.a, false).0, f: alu::rrc(cpu.a, false).1, ..cpu })
    } else if op == 0x17 {
        Some(CPU { a: alu::rl(cpu.a, f, false).0, f: alu::rl(cpu.a, f, false).1, ..cpu })
    } else if op == 0x1F {
        Some(CPU { a: alu::rr(cpu.a, f, false).0, f: alu::rr(cpu.a, f, false).1, ..cpu })
    } else if op == 0x27 {
        Some(CPU { a: alu::daa(cpu.a, f).0, f: alu::daa(cpu.a, f).1, ..cpu })
    } else if op == 0x2F {
        Some(CPU { a: !cpu.a, f: flags_byte(flag_z(f), true, true, flag_c(f)), ..cpu })
    } else if op == 0x37 {
        Some(CPU { f: flags_byte(flag_z(f), false, false, true), ..cpu })
    } else if op == 0x3F {
        Some(CPU { f: flags_byte(flag_z(f), false, false, !flag_c(f)), ..cpu })
    } else {
        None
    }
}

/// The exact effect of the primary instructions that read memory (an
/// immediate operand, the byte at an address, the stack) and write none;
/// `None` for the others. `cpu.pc` is already past the opcode.
pub open spec fn read_effect(cpu: CPU, m: MMU, op: u8) -> Option<CPU> {
    let imm = m.read_spec(cpu.pc);
    let imm_word = word_of(m.read_spec(add16_wrap(cpu.pc, 1)), imm);
    let after_imm = CPU { pc: add16_wrap(cpu.pc, 1), ..cpu };
    let after_word = CPU { pc: add16_wrap(cpu.pc, 2), ..cpu };
    let popped = word_of(m.read_spec(add16_wrap(cpu.sp, 1)), m.read_spec(cpu.sp));
    let after_pop = CPU { sp: add16_wrap(cpu.sp, 2), ..cpu };
    if op < 0x40 {
        low_read_effect(cpu, m, op)
    } else if op < 0x80 {
        if op % 8 == 6 && op != 0x76 {
            Some(cpu.with_reg((op / 8) % 8, m.read_spec(cpu.spec_hl())))
        } else {
            None
        }
    } else if op < 0xC0 {
        if op % 8 == 6 {
            let (a, f) = alu_spec((op / 8) % 8, cpu.a, m.read_spec(cpu.spec_hl()), cpu.f);
            Some(CPU { a, f, ..cpu })
        } else {
            None
        }
    } else if op % 8 == 6 {
        let (a, f) = alu_spec((op / 8) % 8, cpu.a, imm, cpu.f);
        Some(CPU { a, f, ..after_imm })
    } else if op % 16 == 1 || op % 16 == 5 {
        stack_effect(cpu, m, op)
    } else if is_flow_read(op) {
        flow_effect(cpu, m, op)
    } else {
        misc_read_effect(cpu, m, op)
    }
}

/// JP, RET, RETI and conditional CALL: the control transfers that may
/// only read memory.
pub open spec fn is_flow_read(op: u8) -> bool {
    op == 0xC3 || op == 0xC2 || op == 0xCA || op == 0xD2 || op == 0xDA || op == 0xC9 || op == 0xC0 || op == 0xC8
        || op == 0xD0 || op == 0xD8 || op == 0xD9 || op == 0xC4 || op == 0xCC || op == 0xD4 || op == 0xDC
}

/// `read_effect` on JP, RET, RETI, and a conditional CALL not taken.
#[verifier::opaque]
pub open spec fn flow_effect(cpu: CPU, m: MMU, op: u8) -> Option<CPU> {
    let imm_word = word_of(m.read_spec(add16_wrap(cpu.pc, 1)), m.read_spec(cpu.pc));
    let popped = word_of(m.read_spec(add16_wrap(cpu.sp, 1)), m.read_spec(cpu.sp));
    let after_pop = CPU { sp: add16_wrap(cpu.sp, 2), ..cpu };
    if op == 0xC3 || op == 0xC2 || op == 0xCA || op == 0xD2 || op == 0xDA {
        if op == 0xC3 || cpu.condition_holds(if op < 0xD0 { FLAG_ZERO } else { FLAG_CARRY }, true, op % 16 == 0x0A) {
            Some(CPU { pc: imm_word, ..cpu })
        } else {
            Some(CPU { pc: add16_wrap(cpu.pc, 2), ..cpu })
        }
    } else if op == 0xD9 {
        Some(CPU { pc: popped, interrupts_enabled: true, ..after_pop })
    } else if op == 0xC4 || op == 0xCC || op == 0xD4 || op == 0xDC {
        if cpu.condition_holds(if op < 0xD0 { FLAG_ZERO } else { FLAG_CARRY }, true, op % 16 == 0x0C) {
            None
        } else {
            Some(CPU { pc: add16_wrap(cpu.pc, 2), ..cpu })
        }
    } else if op == 0xC9 || cpu.condition_holds(if op < 0xD0 { FLAG_ZERO } else { FLAG_CARRY }, true, op % 16 == 0x08) {
        Some(CPU { pc: popped, ..after_pop })
    } else {
        Some(cpu)
    }
}

/// `read_effect` on POP (PUSH writes, and has none).
#[verifier::opaque]
pub open spec fn stack_effect(cpu: CPU, m: MMU, op: u8) -> Option<CPU> {
    let popped = word_of(m.read_spec(add16_wrap(cpu.sp, 1)), m.read_spec(cpu.sp));
    let after_pop = CPU { sp: add16_wrap(cpu.sp, 2), ..cpu };
    if op == 0xC1 || op == 0xD1 || op == 0xE1 {
        Some(after_pop.with_r16((op / 16) % 4, popped))
    } else if op == 0xF1 {
        Some(CPU { a: high_byte(popped), f: low_byte(popped) & 0xF0, ..after_pop })
    } else {
        None
    }
}

/// `read_effect` on LDH A,(n), LD A,(C), LD A,(nn), ADD SP,e and LD HL,SP+e.
#[verifier::opaque]
pub open spec fn misc_read_effect(cpu: CPU, m: MMU, op: u8) -> Option<CPU> {
    let imm = m.read_spec(cpu.pc);
    let after_imm = CPU { pc: add16_wrap(cpu.pc, 1), ..cpu };
    if op == 0xF0 {
        Some(CPU { a: m.read_spec(word_of(0xFF, imm)), ..after_imm })
    } else if op == 0xF2 {
        Some(CPU { a: m.read_spec(word_of(0xFF, cpu.c)), ..cpu })
    } else if op == 0xFA {
        Some(CPU { a: m.read_spec(word_of(m.read_spec(add16_wrap(cpu.pc, 1)), imm)), pc: add16_wrap(cpu.pc, 2), ..cpu })
    } else if op == 0xE8 {
        Some(CPU { sp: alu::add_sp(cpu.sp, imm).0, f: alu::add_sp(cpu.sp, imm).1, ..after_imm })
    } else if op == 0xF8 {
        let (w, f) = alu::add_sp(cpu.sp, imm);
        Some(CPU { h: high_byte(w), l: low_byte(w), f, ..after_imm })
    } else {
        None
    }
}

/// `read_effect` on LD A,(BC), LD A,(DE), LD A,(HL+), LD A,(HL-).
#[verifier::opaque]
pub open spec fn indirect_effect(cpu: CPU, m: MMU, op: u8) -> Option<CPU> {
    if op == 0x0A {
        Some(CPU { a: m.read_spec(cpu.spec_bc()), ..cpu })
    } else if op == 0x1A {
        Some(CPU { a: m.read_spec(cpu.spec_de()), ..cpu })
    } else if op == 0x2A {
        Some(CPU { a: m.read_spec(cpu.spec_hl()), ..cpu }.with_r16(2, add16_wrap(cpu.spec_hl(), 1)))
    } else if op == 0x3A {
        Some(CPU { a: m.read_spec(cpu.spec_hl()), ..cpu }.with_r16(2, add16_wrap(cpu.spec_hl(), -1)))
    } else {
        None
    }
}

pub(crate) proof fn lemma_indirect_effect(cpu: CPU, m: MMU, op: u8)
    requires
        op < 0x40,
        op % 16 == 2 || op % 16 == 0x0A,
    ensures
        low_read_effect(cpu, m, op) == indirect_effect(cpu, m, op),
        low_effect(cpu, op) is None,
{
    reveal(low_effect);
    reveal(low_read_effect);
}

pub(crate) proof fn lemma_stack_effects(cpu: CPU, m: MMU, op: u8)
    requires
        0xC0 <= op,
        op % 16 == 1 || op % 16 == 5,
    ensures
        read_effect(cpu, m, op) == stack_effect(cpu, m, op),
        register_effect(cpu, op) is None,
{
}

pub(crate) proof fn lemma_flow_effects(cpu: CPU, m: MMU, op: u8)
    requires
        0xC0 <= op,
        op % 8 != 6,
        op % 8 != 7,
        !(op % 16 == 1 || op % 16 == 5),
    ensures
        is_flow_read(op) ==> read_effect(cpu, m, op) == flow_effect(cpu, m, op),
        op == 0xCD ==> read_effect(cpu, m, op) is None,
        op != 0xE9 && op != 0xF9 && op != 0xF3 && op != 0xFB ==> register_effect(cpu, op) is None,
{
    reveal(misc_read_effect);
}

pub(crate) proof fn lemma_misc_effects(cpu: CPU, m: MMU, op: u8)
    requires
        0xC0 <= op,
        op % 8 != 6,
        op % 8 != 7,
        !(op % 16 == 1 || op % 16 == 5),
        !is_flow_read(op),
    ensures
        read_effect(cpu, m, op) == misc_read_effect(cpu, m, op),
{
}

/// `read_effect` on the opcodes 0x00-0x3F.
#[verifier::opaque]
pub open spec fn low_read_effect(cpu: CPU, m: MMU, op: u8) -> Option<CPU> {
    let imm = m.read_spec(cpu.pc);
    let row = (op / 8) % 8;
    let pair = (op / 16) % 4;
    if op % 8 == 6 {
        if row != 6 {
            Some(CPU { pc: add16_wrap(cpu.pc, 1), ..cpu }.with_reg(row, imm))
        } else {
            None
        }
    } else if op % 16 == 1 {
        Some(CPU { pc: add16_wrap(cpu.pc, 2), ..cpu }.with_r16(pair, word_of(m.read_spec(add16_wrap(cpu.pc, 1)), imm)))
    } else if op % 16 == 2 || op % 16 == 0x0A {
        indirect_effect(cpu, m, op)
    } else if op == 0x10 {
        Some(CPU { pc: add16_wrap(cpu.pc, 1), ..cpu })
    } else if op == 0x18 || op == 0x20 || op == 0x28 || op == 0x30 || op == 0x38 {
        if op == 0x18 || cpu.condition_holds(if op < 0x30 { FLAG_ZERO } else { FLAG_CARRY }, true, op % 16 == 0x08) {
            Some(CPU { pc: jr_target(cpu.pc, imm), ..cpu })
        } else {
            Some(CPU { pc: add16_wrap(cpu.pc, 1), ..cpu })
        }
    } else {
        None
    }
}

/// The primary instructions that write one byte: the registers after,
/// the address written and the byte; `None` for the others.
pub open spec fn write_effect(cpu: CPU, m: MMU, op: u8) -> Option<(CPU, u16, u8)> {
    if op < 0x40 {
        low_write_effect(cpu, m, op)
    } else if 0x70 <= op <= 0x77 && op != 0x76 {
        Some((cpu, cpu.spec_hl(), cpu.reg(op % 8)))
    } else if op == 0xCB {
        cb_write_effect(CPU { pc: add16_wrap(cpu.pc, 1), ..cpu }, m, m.read_spec(cpu.pc))
    } else if op >= 0xC0 {
        high_write_effect(cpu, m, op)
    } else {
        None
    }
}

/// `write_effect` on the opcodes 0x00-0x3F.
#[verifier::opaque]
pub open spec fn low_write_effect(cpu: CPU, m: MMU, op: u8) -> Option<(CPU, u16, u8)> {
    let hl = cpu.spec_hl();
    let v = m.read_spec(hl);
    if op == 0x02 {
        Some((cpu, cpu.spec_bc(), cpu.a))
    } else if op == 0x12 {
        Some((cpu, cpu.spec_de(), cpu.a))
    } else if op == 0x22 {
        Some((cpu.with_r16(2, add16_wrap(hl, 1)), hl, cpu.a))
    } else if op == 0x32 {
        Some((cpu.with_r16(2, add16_wrap(hl, -1)), hl, cpu.a))
    } else if op == 0x34 {
        Some((CPU { f: alu::inc8(v, cpu.f).1, ..cpu }, hl, alu::inc8(v, cpu.f).0))
    } else if op == 0x35 {
        Some((CPU { f: alu::dec8(v, cpu.f).1, ..cpu }, hl, alu::dec8(v, cpu.f).0))
    } else if op == 0x36 {
        Some((CPU { pc: add16_wrap(cpu.pc, 1), ..cpu }, hl, m.read_spec(cpu.pc)))
    } else {
        None
    }
}

pub(crate) proof fn lemma_store_sp_effects(cpu: CPU, m: MMU)
    ensures
        low_cycles(cpu, 0x08) == 20,
        low_effect(cpu, 0x08) is None,
        low_read_effect(cpu, m, 0x08) is None,
        low_write_effect(cpu, m, 0x08) is None,
{
    reveal(low_effect);
    reveal(low_read_effect);
    reveal(low_write_effect);
    reveal(low_cycles);
}

pub(crate) proof fn lemma_low_write_none(cpu: CPU, m: MMU, op: u8)
    requires
        op < 0x40,
        op % 8 == 0 || op % 8 == 7 || op % 16 == 1 || op % 16 == 3 || op % 16 == 9 || op % 16 == 0x0B,
    ensures
        low_write_effect(cpu, m, op) is None,
{
    reveal(low_write_effect);
}

/// `write_effect` on LDH (n),A, LD (C),A and LD (nn),A.
#[verifier::opaque]
pub open spec fn high_write_effect(cpu: CPU, m: MMU, op: u8) -> Option<(CPU, u16, u8)> {
    let imm = m.read_spec(cpu.pc);
    if op == 0xE0 {
        Some((CPU { pc: add16_wrap(cpu.pc, 1), ..cpu }, word_of(0xFF, imm), cpu.a))
    } else if op == 0xE2 {
        Some((cpu, word_of(0xFF, cpu.c), cpu.a))
    } else if op == 0xEA {
        Some((CPU { pc: add16_wrap(cpu.pc, 2), ..cpu }, word_of(m.read_spec(add16_wrap(cpu.pc, 1)), imm), cpu.a))
    } else {
        None
    }
}

/// A CB-table instruction on the byte at HL, other than BIT: the registers
/// after, HL, and the byte written back. `cpu.pc` is past the second byte.
pub open spec fn cb_write_effect(cpu: CPU, m: MMU, op: u8) -> Option<(CPU, u16, u8)> {
    let hl = cpu.spec_hl();
    let v = m.read_spec(hl);
    let bit = (op / 8) % 8;
    if op % 8 != 6 || op / 64 == 1 {
        None
    } else if op / 64 == 0 {
        Some((CPU { f: alu::shift_op(bit, v, cpu.f).1, ..cpu }, hl, alu::shift_op(bit, v, cpu.f).0))
    } else if op / 64 == 2 {
        Some((cpu, hl, v & !(1u8 << bit)))
    } else {
        Some((cpu, hl, v | (1u8 << bit)))
    }
}

/// PUSH, RST and a CALL that is taken: the registers after and the word
/// pushed; `None` for the other instructions.
#[verifier::opaque]
pub open spec fn stack_write_effect(cpu: CPU, m: MMU, op: u8) -> Option<(CPU, u16)> {
    let after_push = CPU { sp: add16_wrap(cpu.sp, -2), ..cpu };
    let imm_word = word_of(m.read_spec(add16_wrap(cpu.pc, 1)), m.read_spec(cpu.pc));
    if op == 0xC5 || op == 0xD5 || op == 0xE5 {
        Some((after_push, cpu.r16((op / 16) % 4)))
    } else if op == 0xF5 {
        Some((after_push, cpu.spec_af()))
    } else if op >= 0xC0 && op % 8 == 7 {
        Some((CPU { pc: (op - 0xC7) as u16, ..after_push }, cpu.pc))
    } else if op == 0xCD || ((op == 0xC4 || op == 0xCC || op == 0xD4 || op == 0xDC) && cpu.condition_holds(
        if op < 0xD0 { FLAG_ZERO } else { FLAG_CARRY },
        true,
        op % 16 == 0x0C,
    )) {
        Some((CPU { pc: imm_word, ..after_push }, add16_wrap(cpu.pc, 2)))
    } else {
        None
    }
}

/// The 16-bit register instructions among 0x00-0x3F without an immediate.
#[verifier::opaque]
pub open spec fn r16_effect(cpu: CPU, op: u8) -> Option<CPU> {
    let pair = (op / 16) % 4;
    if op % 16 == 3 {
        Some(cpu.with_r16(pair, add16_wrap(cpu.r16(pair), 1)))
    } else if op % 16 == 0x0B {
        Some(cpu.with_r16(pair, add16_wrap(cpu.r16(pair), -1)))
    } else if op % 16 == 9 {
        let (w, g) = alu::add16(cpu.spec_hl(), cpu.r16(pair), cpu.f);
        Some(CPU { h: high_byte(w), l: low_byte(w), f: g, ..cpu })
    } else {
        None
    }
}

pub(crate) proof fn lemma_low_effect_r16(cpu: CPU, op: u8)
    requires
        op < 0x40,
        op % 16 == 1 || op % 16 == 3 || op % 16 == 0x0B || op % 16 == 9,
    ensures
        low_effect(cpu, op) == r16_effect(cpu, op),
{
    reveal(low_effect);
    reveal(r16_effect);
    assert(op % 16 == 1 ==> op % 8 == 1);
    assert(op % 16 == 3 ==> op % 8 == 3);
    assert(op % 16 == 0x0B ==> op % 8 == 3);
    assert(op % 16 == 9 ==> op % 8 == 1);
}

/// Whether a CB-table opcode works on a register rather than on the byte at HL.
pub open spec fn cb_on_register(op: u8) -> bool {
    op % 8 != 6
}

/// What a CB-table instruction with a register operand does to the registers.
pub open spec fn cb_effect(cpu: CPU, op: u8) -> CPU {
    let idx = op % 8;
    let bit = (op / 8) % 8;
    let v = cpu.reg(idx);
    if op / 64 == 0 {
        CPU { f: alu::shift_op(bit, v, cpu.f).1, ..cpu }.with_reg(idx, alu::shift_op(bit, v, cpu.f).0)
    } else if op / 64 == 1 {
        CPU { f: alu::bit_test(v, bit, cpu.f), ..cpu }
    } else if op / 64 == 2 {
        cpu.with_reg(idx, v & !(1u8 << bit))
    } else {
        cpu.with_reg(idx, v | (1u8 << bit))
    }
}

/// Where JR lands: `pc` is the address of its offset byte `e`, and the
/// offset counts from the byte after it.
pub open spec fn jr_target(pc: u16, e: u8) -> u16 {
    add16_wrap(pc, 1 + alu::signed8(e))
}

/// JR with offset -128 (0x80) whose opcode stands at `p` lands at `p - 126`.
pub proof fn lemma_jr_back_128(p: u16)
    ensures
        jr_target(add16_wrap(p, 1), 0x80) == add16_wrap(p, -126),
{
}

/// The cycle cost of primary instruction `op`; `cpu.pc` is past the
/// opcode. Conditional jumps, calls and returns cost more when taken.
pub open spec fn cycles_of(cpu: CPU, m: MMU, op: u8) -> u16 {
    if op < 0x40 {
        low_cycles(cpu, op)
    } else if op < 0x80 {
        if op == 0x76 { 4 } else if op % 8 == 6 || (op / 8) % 8 == 6 { 8 } else { 4 }
    } else if op < 0xC0 {
        if op % 8 == 6 { 8 } else { 4 }
    } else if op == 0xCB {
        cb_cycles(m.read_spec(cpu.pc))
    } else {
        high_cycles(cpu, op)
    }
}

/// The cost of a CB-table instruction: 8 on a register, 12 for BIT on the
/// byte at HL, 16 for the others on the byte at HL.
pub open spec fn cb_cycles(n: u8) -> u16 {
    if n % 8 != 6 { 8 } else if n / 64 == 1 { 12 } else { 16 }
}

/// `cycles_of` on the opcodes 0x00-0x3F.
#[verifier::opaque]
pub open spec fn low_cycles(cpu: CPU, op: u8) -> u16 {
    let row = (op / 8) % 8;
    if op % 8 == 4 || op % 8 == 5 {
        if row == 6 { 12 } else { 4 }
    } else if op % 8 == 6 {
        if row == 6 { 12 } else { 8 }
    } else if op % 16 == 1 {
        12
    } else if op % 16 == 3 || op % 16 == 0x0B || op % 16 == 9 || op % 16 == 2 || op % 16 == 0x0A {
        8
    } else if op == 0x08 {
        20
    } else if op == 0x18 {
        12
    } else if op == 0x20 || op == 0x28 || op == 0x30 || op == 0x38 {
        if cpu.condition_holds(if op < 0x30 { FLAG_ZERO } else { FLAG_CARRY }, true, op % 16 == 0x08) { 12 } else { 8 }
    } else {
        4
    }
}

/// `cycles_of` on the opcodes 0xC0-0xFF but the CB prefix.
#[verifier::opaque]
pub open spec fn high_cycles(cpu: CPU, op: u8) -> u16 {
    let flag = if op < 0xD0 { FLAG_ZERO } else { FLAG_CARRY };
    if op % 8 == 6 {
        8
    } else if op % 8 == 7 {
        16
    } else if op == 0xC0 || op == 0xC8 || op == 0xD0 || op == 0xD8 {
        if cpu.condition_holds(flag, true, op % 16 == 0x08) { 20 } else { 8 }
    } else if op == 0xC9 || op == 0xD9 {
        16
    } else if op == 0xC2 || op == 0xCA || op == 0xD2 || op == 0xDA {
        if cpu.condition_holds(flag, true, op % 16 == 0x0A) { 16 } else { 12 }
    } else if op == 0xC3 {
        16
    } else if op == 0xC4 || op == 0xCC || op == 0xD4 || op == 0xDC {
        if cpu.condition_holds(flag, true, op % 16 == 0x0C) { 24 } else { 12 }
    } else if op == 0xCD {
        24
    } else if op == 0xC1 || op == 0xD1 || op == 0xE1 || op == 0xF1 {
        12
    } else if op == 0xC5 || op == 0xD5 || op == 0xE5 || op == 0xF5 {
        16
    } else if op == 0xE0 || op == 0xF0 || op == 0xF8 {
        12
    } else if op == 0xE2 || op == 0xF2 || op == 0xF9 {
        8
    } else if op == 0xEA || op == 0xFA || op == 0xE8 {
        16
    } else {
        4
    }
}

} // verus!
