//! The LR35902 interpreter: registers, operand access, the primary and
//! CB-prefixed instruction tables, and interrupt servicing.
use vstd::prelude::*;
use crate::alu;
use crate::bits::{high_byte, low_byte, word_of, Register};
use crate::flags::{flag_c, flag_z, flags_byte, make_flags, carry_of, zero_of};
use crate::mmu::{MMU, INTERRUPT_FLAG};
use crate::semantics::{
    cb_cycles, cycles_of, high_cycles, low_cycles,
    cb_effect, cb_on_register, cb_write_effect, flow_effect, high_write_effect, indirect_effect, is_flow_read, jr_target,
    load_effect, low_effect, low_read_effect, low_write_effect, misc_read_effect, r16_effect, read_effect,
    register_effect, stack_effect, stack_write_effect, write_effect, lemma_flow_effects, lemma_indirect_effect,
    lemma_low_effect_r16, lemma_low_write_none, lemma_misc_effects, lemma_stack_effects, lemma_store_sp_effects,
};

verus! {

pub const FLAG_ZERO: u8 = 7;
pub const FLAG_SUBTRACT: u8 = 6;
pub const FLAG_HALF_CARRY: u8 = 5;
pub const FLAG_CARRY: u8 = 4;

/// A fatal fault of the interpreter.
#[derive(PartialEq, Eq, Structural, Clone, Copy, Debug)]
pub enum CpuError {
    /// An undefined primary opcode, with the address it was fetched from.
    InvalidOpcode { opcode: u8, pc: u16 },
}

/// The register file and the interrupt state. `pending_interrupt` is the
/// delayed effect of EI (`Some(true)`) or DI (`Some(false)`).
#[derive(Clone, Copy, Debug, PartialEq, Eq, Structural)]
pub struct CPU {
    pub a: u8,
    pub b: u8,
    pub c: u8,
    pub d: u8,
    pub e: u8,
    pub h: u8,
    pub l: u8,
    pub f: u8,
    pub pc: u16,
    pub sp: u16,
    pub halted: bool,
    pub interrupts_enabled: bool,
    pub pending_interrupt: Option<bool>,
}

/// `next` is the bus after a push of `w` with the stack pointer at `sp`:
/// the high byte written at `sp - 1`, then the low byte at `sp - 2`.
pub open spec fn pushed(m: MMU, sp: u16, w: u16, next: MMU) -> bool {
    exists|mid: MMU|
        #[trigger] m.write_ok(add16_wrap(sp, -1), high_byte(w), mid) && mid.write_ok(add16_wrap(sp, -2), low_byte(w), next)
}

/// `next` is the bus after `w` was stored at `address`, low byte first.
pub open spec fn stored_word(m: MMU, address: u16, w: u16, next: MMU) -> bool {
    exists|mid: MMU| #[trigger] m.write_ok(address, low_byte(w), mid) && mid.write_ok(add16_wrap(address, 1), high_byte(w), next)
}

/// The undefined primary opcodes.
pub open spec fn is_invalid_opcode(op: u8) -> bool {
    op == 0xD3 || op == 0xDB || op == 0xDD || op == 0xE3 || op == 0xE4 || op == 0xEB || op == 0xEC
        || op == 0xED || op == 0xF4 || op == 0xFC || op == 0xFD
}

/// Whether `op` is an undefined primary opcode.
pub fn invalid_opcode(op: u8) -> (r: bool)
    ensures
        r == is_invalid_opcode(op),
{
    op == 0xD3 || op == 0xDB || op == 0xDD || op == 0xE3 || op == 0xE4 || op == 0xEB || op == 0xEC || op == 0xED
        || op == 0xF4 || op == 0xFC || op == 0xFD
}

/// The cycle costs an instruction can have.
pub open spec fn is_cycle_cost(c: u16) -> bool {
    c == 4 || c == 8 || c == 12 || c == 16 || c == 20 || c == 24 || c == 32
}

pub open spec fn add16_wrap(a: u16, b: int) -> u16 {
    ((a + b + 0x20000) % 0x10000) as u16
}

impl CPU {
    /// The low nibble of F is zero.
    pub open spec fn wf(&self) -> bool {
        self.f % 16 == 0
    }

    pub open spec fn spec_af(&self) -> u16 {
        word_of(self.a, self.f)
    }

    pub open spec fn spec_bc(&self) -> u16 {
        word_of(self.b, self.c)
    }

    pub open spec fn spec_de(&self) -> u16 {
        word_of(self.d, self.e)
    }

    pub open spec fn spec_hl(&self) -> u16 {
        word_of(self.h, self.l)
    }

    /// Register operand `idx` of the eight-fold encoding (B, C, D, E, H, L,
    /// -, A); 6 stands for the byte at HL and has no register.
    pub open spec fn reg(&self, idx: u8) -> u8 {
        if idx == 0 {
            self.b
        } else if idx == 1 {
            self.c
        } else if idx == 2 {
            self.d
        } else if idx == 3 {
            self.e
        } else if idx == 4 {
            self.h
        } else if idx == 5 {
            self.l
        } else {
            self.a
        }
    }

    pub open spec fn with_reg(self, idx: u8, v: u8) -> CPU {
        if idx == 0 {
            CPU { b: v, ..self }
        } else if idx == 1 {
            CPU { c: v, ..self }
        } else if idx == 2 {
            CPU { d: v, ..self }
        } else if idx == 3 {
            CPU { e: v, ..self }
        } else if idx == 4 {
            CPU { h: v, ..self }
        } else if idx == 5 {
            CPU { l: v, ..self }
        } else {
            CPU { a: v, ..self }
        }
    }

    /// The register pair selected by bits 4-5 of an opcode: BC, DE, HL, SP.
    pub open spec fn r16(&self, idx: u8) -> u16 {
        if idx == 0 {
            self.spec_bc()
        } else if idx == 1 {
            self.spec_de()
        } else if idx == 2 {
            self.spec_hl()
        } else {
            self.sp
        }
    }

    pub open spec fn with_r16(self, idx: u8, w: u16) -> CPU {
        if idx == 0 {
            CPU { b: high_byte(w), c: low_byte(w), ..self }
        } else if idx == 1 {
            CPU { d: high_byte(w), e: low_byte(w), ..self }
        } else if idx == 2 {
            CPU { h: high_byte(w), l: low_byte(w), ..self }
        } else {
            CPU { sp: w, ..self }
        }
    }

    /// Whether the condition of a conditional jump holds: always when
    /// `use_condition` is false, else when flag bit `flag` equals `condition`.
    pub open spec fn condition_holds(&self, flag: u8, use_condition: bool, condition: bool) -> bool {
        !use_condition || crate::bits::bit_of(self.f, flag) == condition
    }

    /// The registers after power-on without a boot ROM.
    pub open spec fn new_spec() -> CPU {
        CPU {
            a: 0x01, f: 0xB0, b: 0x00, c: 0x13, d: 0x00, e: 0xD8, h: 0x01, l: 0x4D, pc: 0x100, sp: 0xFFFE,
            halted: false, interrupts_enabled: false, pending_interrupt: None,
        }
    }

    /// The state after power-on without a boot ROM.
    pub fn new() -> (r: CPU)
        ensures
            r == CPU::new_spec(),
            r.wf(),
    {
        CPU {
            a: 0x01,
            f: 0xB0,
            b: 0x00,
            c: 0x13,
            d: 0x00,
            e: 0xD8,
            h: 0x01,
            l: 0x4D,
            pc: 0x100,
            sp: 0xFFFE,
            halted: false,
            interrupts_enabled: false,
            pending_interrupt: None,
        }
    }

    pub fn af(&self) -> (r: u16)
        ensures
            r == self.spec_af(),
    {
        u16::from_bytes(self.a, self.f)
    }

    pub fn bc(&self) -> (r: u16)
        ensures
            r == self.spec_bc(),
    {
        u16::from_bytes(self.b, self.c)
    }

    pub fn de(&self) -> (r: u16)
        ensures
            r == self.spec_de(),
    {
        u16::from_bytes(self.d, self.e)
    }

    pub fn hl(&self) -> (r: u16)
        ensures
            r == self.spec_hl(),
    {
        u16::from_bytes(self.h, self.l)
    }

    fn set_bc(&mut self, w: u16)
        ensures
            *final(self) == (CPU { b: high_byte(w), c: low_byte(w), ..*old(self) }),
    {
        self.b = w.hi();
        self.c = w.lo();
    }

    fn set_de(&mut self, w: u16)
        ensures
            *final(self) == (CPU { d: high_byte(w), e: low_byte(w), ..*old(self) }),
    {
        self.d = w.hi();
        self.e = w.lo();
    }

    fn set_hl(&mut self, w: u16)
        ensures
            *final(self) == (CPU { h: high_byte(w), l: low_byte(w), ..*old(self) }),
    {
        self.h = w.hi();
        self.l = w.lo();
    }

    /// Fetches the byte at PC and moves PC past it.
    pub fn read_immediate_byte(&mut self, mmu: &MMU) -> (r: u8)
        requires
            mmu.wf(),
        ensures
            r == mmu.read_spec(old(self).pc),
            *final(self) == (CPU { pc: add16_wrap(old(self).pc, 1), ..*old(self) }),
    {
        let r = mmu.read(self.pc);
        self.pc = self.pc.wrapping_add(1);
        r
    }

    /// Fetches the little-endian word at PC and moves PC past it.
    pub fn read_immediate_word(&mut self, mmu: &MMU) -> (r: u16)
        requires
            mmu.wf(),
        ensures
            r == word_of(mmu.read_spec(add16_wrap(old(self).pc, 1)), mmu.read_spec(old(self).pc)),
            *final(self) == (CPU { pc: add16_wrap(old(self).pc, 2), ..*old(self) }),
    {
        let lo = self.read_immediate_byte(mmu);
        let hi = self.read_immediate_byte(mmu);
        u16::from_bytes(hi, lo)
    }

    /// Pushes a word: its high byte at SP-1, its low byte at SP-2.
    pub fn push_stack(&mut self, mmu: &mut MMU, data: u16)
        requires
            old(mmu).wf(),
        ensures
            final(mmu).wf(),
            *final(self) == (CPU { sp: add16_wrap(old(self).sp, -2), ..*old(self) }),
            pushed(*old(mmu), old(self).sp, data, *final(mmu)),
    {
        mmu.write(self.sp.wrapping_sub(1), data.hi());
        let ghost mid = *mmu;
        mmu.write(self.sp.wrapping_sub(2), data.lo());
        self.sp = self.sp.wrapping_sub(2);
        assert(old(mmu).write_ok(add16_wrap(old(self).sp, -1), high_byte(data), mid));
    }

    /// Pops a word: its low byte from SP, its high byte from SP+1.
    pub fn pop_stack(&mut self, mmu: &MMU) -> (r: u16)
        requires
            mmu.wf(),
        ensures
            r == word_of(mmu.read_spec(add16_wrap(old(self).sp, 1)), mmu.read_spec(old(self).sp)),
            *final(self) == (CPU { sp: add16_wrap(old(self).sp, 2), ..*old(self) }),
    {
        let lo = mmu.read(self.sp);
        let hi = mmu.read(self.sp.wrapping_add(1));
        self.sp = self.sp.wrapping_add(2);
        u16::from_bytes(hi, lo)
    }

    /// Sets IF bit `id`.
    pub fn request_interrupt(&mut self, mmu: &mut MMU, id: u8)
        requires
            old(mmu).wf(),
            id < 5,
        ensures
            *final(mmu) == (MMU { interrupt_flag: old(mmu).interrupt_flag | (1u8 << id), ..*old(mmu) }),
            *final(self) == *old(self),
    {
        mmu.interrupt_flag = mmu.interrupt_flag | (1u8 << id);
    }
}

/// The accumulator operation selected by bits 3-5 of an opcode: ADD, ADC,
/// SUB, SBC, AND, XOR, OR, CP; the new A and F.
#[verifier::opaque]
pub open spec fn alu_spec(kind: u8, a: u8, v: u8, f: u8) -> (u8, u8) {
    if kind == 0 {
        alu::add8(a, v, false)
    } else if kind == 1 {
        alu::add8(a, v, flag_c(f))
    } else if kind == 2 {
        alu::sub8(a, v, false)
    } else if kind == 3 {
        alu::sub8(a, v, flag_c(f))
    } else if kind == 4 {
        alu::and8(a, v)
    } else if kind == 5 {
        alu::xor8(a, v)
    } else if kind == 6 {
        alu::or8(a, v)
    } else {
        (a, alu::sub8(a, v, false).1)
    }
}

proof fn lemma_alu_flags_wf(kind: u8, a: u8, v: u8, f: u8)
    ensures
        alu_spec(kind, a, v, f).1 % 16 == 0,
{
    reveal(alu_spec);
    let ci = alu::b2i(flag_c(f));
    crate::flags::lemma_flags_byte(((a + v) % 256) as u8 == 0, false, a % 16 + v % 16 > 15, a + v > 255);
    crate::flags::lemma_flags_byte(((a + v + ci) % 256) as u8 == 0, false, a % 16 + v % 16 + ci > 15, a + v + ci > 255);
    crate::flags::lemma_flags_byte((((a - v) + 256) % 256) as u8 == 0, true, a % 16 < v % 16, a < v);
    crate::flags::lemma_flags_byte((((a - v - ci) + 256) % 256) as u8 == 0, true, a % 16 < v % 16 + ci, a < v + ci);
    crate::flags::lemma_flags_byte(a & v == 0, false, true, false);
    crate::flags::lemma_flags_byte(a ^ v == 0, false, false, false);
    crate::flags::lemma_flags_byte(a | v == 0, false, false, false);
}

impl CPU {
    /// Applies accumulator operation `kind` with operand `value` to A and F.
    pub fn alu_a(&mut self, kind: u8, value: u8)
        requires
            kind < 8,
        ensures
            *final(self) == (CPU {
                a: alu_spec(kind, old(self).a, value, old(self).f).0,
                f: alu_spec(kind, old(self).a, value, old(self).f).1,
                ..*old(self)
            }),
            final(self).f % 16 == 0,
    {
        reveal(alu_spec);
        proof { lemma_alu_flags_wf(kind, self.a, value, self.f); }
        let (a, f) = if kind == 0 {
            alu::alu_add(self.a, value, false)
        } else if kind == 1 {
            alu::alu_add(self.a, value, carry_of(self.f))
        } else if kind == 2 {
            alu::alu_sub(self.a, value, false)
        } else if kind == 3 {
            alu::alu_sub(self.a, value, carry_of(self.f))
        } else if kind == 4 {
            alu::alu_and(self.a, value)
        } else if kind == 5 {
            alu::alu_xor(self.a, value)
        } else if kind == 6 {
            alu::alu_or(self.a, value)
        } else {
            (self.a, alu::alu_sub(self.a, value, false).1)
        };
        self.a = a;
        self.f = f;
    }

    /// ADD A,value.
    pub fn add_8bit(&mut self, value: u8)
        ensures
            *final(self) == (CPU { a: alu::add8(old(self).a, value, false).0, f: alu::add8(old(self).a, value, false).1, ..*old(self) }),
    {
        reveal(alu_spec);
        self.alu_a(0, value);
    }

    /// ADC A,value.
    pub fn add_8bit_carry(&mut self, value: u8)
        ensures
            *final(self) == (CPU {
                a: alu::add8(old(self).a, value, flag_c(old(self).f)).0,
                f: alu::add8(old(self).a, value, flag_c(old(self).f)).1,
                ..*old(self)
            }),
    {
        reveal(alu_spec);
        self.alu_a(1, value);
    }

    /// SUB A,value.
    pub fn sub_8bit(&mut self, value: u8)
        ensures
            *final(self) == (CPU { a: alu::sub8(old(self).a, value, false).0, f: alu::sub8(old(self).a, value, false).1, ..*old(self) }),
    {
        reveal(alu_spec);
        self.alu_a(2, value);
    }

    /// SBC A,value.
    pub fn sub_8bit_carry(&mut self, value: u8)
        ensures
            *final(self) == (CPU {
                a: alu::sub8(old(self).a, value, flag_c(old(self).f)).0,
                f: alu::sub8(old(self).a, value, flag_c(old(self).f)).1,
                ..*old(self)
            }),
    {
        reveal(alu_spec);
        self.alu_a(3, value);
    }

    /// AND A,value.
    pub fn and_8bit(&mut self, value: u8)
        ensures
            *final(self) == (CPU { a: alu::and8(old(self).a, value).0, f: alu::and8(old(self).a, value).1, ..*old(self) }),
    {
        reveal(alu_spec);
        self.alu_a(4, value);
    }

    /// XOR A,value.
    pub fn xor_8bit(&mut self, value: u8)
        ensures
            *final(self) == (CPU { a: alu::xor8(old(self).a, value).0, f: alu::xor8(old(self).a, value).1, ..*old(self) }),
    {
        reveal(alu_spec);
        self.alu_a(5, value);
    }

    /// OR A,value.
    pub fn or_8bit(&mut self, value: u8)
        ensures
            *final(self) == (CPU { a: alu::or8(old(self).a, value).0, f: alu::or8(old(self).a, value).1, ..*old(self) }),
    {
        reveal(alu_spec);
        self.alu_a(6, value);
    }

    /// CP A,value: the flags of a subtraction, A kept.
    pub fn compare_8bit(&mut self, value: u8)
        ensures
            *final(self) == (CPU { f: alu::sub8(old(self).a, value, false).1, ..*old(self) }),
    {
        reveal(alu_spec);
        self.alu_a(7, value);
    }

    /// INC of a byte: returns it plus one and sets Z, N, H (C kept).
    pub fn inc_8bit(&mut self, value: u8) -> (r: u8)
        requires
            old(self).wf(),
        ensures
            r == alu::inc8(value, old(self).f).0,
            *final(self) == (CPU { f: alu::inc8(value, old(self).f).1, ..*old(self) }),
            final(self).wf(),
    {
        let (r, f) = alu::alu_inc(value, self.f);
        proof { crate::flags::lemma_flags_byte(r == 0, false, value % 16 == 15, flag_c(self.f)); }
        self.f = f;
        r
    }

    /// DEC of a byte: returns it minus one and sets Z, N, H (C kept).
    pub fn dec_8bit(&mut self, value: u8) -> (r: u8)
        requires
            old(self).wf(),
        ensures
            r == alu::dec8(value, old(self).f).0,
            *final(self) == (CPU { f: alu::dec8(value, old(self).f).1, ..*old(self) }),
            final(self).wf(),
    {
        let (r, f) = alu::alu_dec(value, self.f);
        proof { crate::flags::lemma_flags_byte(r == 0, true, value % 16 == 0, flag_c(self.f)); }
        self.f = f;
        r
    }

    /// ADD HL,value.
    pub fn add_16bit(&mut self, value: u16)
        ensures
            *final(self) == (CPU {
                h: high_byte(alu::add16(old(self).spec_hl(), value, old(self).f).0),
                l: low_byte(alu::add16(old(self).spec_hl(), value, old(self).f).0),
                f: alu::add16(old(self).spec_hl(), value, old(self).f).1,
                ..*old(self)
            }),
            final(self).f % 16 == 0,
    {
        let hl = self.hl();
        let (r, f) = alu::alu_add16(hl, value, self.f);
        proof {
            let s = alu::add16(hl, value, self.f);
            crate::flags::lemma_flags_byte(flag_z(self.f), false, hl % 4096 + value % 4096 > 4095, hl + value > 65535);
        }
        self.f = f;
        self.set_hl(r);
    }

    /// Runs a rotate or shift on `value`, sets F from it and returns the result.
    fn shift_with_flags(&mut self, kind: u8, value: u8) -> (r: u8)
        requires
            kind < 8,
        ensures
            r == alu::shift_op(kind, value, old(self).f).0,
            *final(self) == (CPU { f: alu::shift_op(kind, value, old(self).f).1, ..*old(self) }),
            final(self).f % 16 == 0,
    {
        let (r, f) = alu::alu_shift(kind, value, self.f);
        proof { lemma_shift_flags_wf(kind, value, self.f); }
        self.f = f;
        r
    }

    /// RL: rotate left through the carry; Z set by the result only when `set_zero`.
    pub fn rotate_left(&mut self, value: u8, set_zero: bool) -> (r: u8)
        ensures
            r == alu::rl(value, old(self).f, set_zero).0,
            *final(self) == (CPU { f: alu::rl(value, old(self).f, set_zero).1, ..*old(self) }),
            final(self).f % 16 == 0,
    {
        let (r, f) = alu::alu_rl(value, self.f, set_zero);
        proof { crate::flags::lemma_flags_byte(set_zero && r == 0, false, false, value >= 128); }
        self.f = f;
        r
    }

    /// RLC: rotate left, bit 7 to bit 0 and C.
    pub fn rotate_left_carry(&mut self, value: u8, set_zero: bool) -> (r: u8)
        ensures
            r == alu::rlc(value, set_zero).0,
            *final(self) == (CPU { f: alu::rlc(value, set_zero).1, ..*old(self) }),
            final(self).f % 16 == 0,
    {
        let (r, f) = alu::alu_rlc(value, set_zero);
        proof { crate::flags::lemma_flags_byte(set_zero && r == 0, false, false, value >= 128); }
        self.f = f;
        r
    }

    /// RR: rotate right through the carry.
    pub fn rotate_right(&mut self, value: u8, set_zero: bool) -> (r: u8)
        ensures
            r == alu::rr(value, old(self).f, set_zero).0,
            *final(self) == (CPU { f: alu::rr(value, old(self).f, set_zero).1, ..*old(self) }),
            final(self).f % 16 == 0,
    {
        let (r, f) = alu::alu_rr(value, self.f, set_zero);
        proof { crate::flags::lemma_flags_byte(set_zero && r == 0, false, false, value % 2 == 1); }
        self.f = f;
        r
    }

    /// RRC: rotate right, bit 0 to bit 7 and C.
    pub fn rotate_right_carry(&mut self, value: u8, set_zero: bool) -> (r: u8)
        ensures
            r == alu::rrc(value, set_zero).0,
            *final(self) == (CPU { f: alu::rrc(value, set_zero).1, ..*old(self) }),
            final(self).f % 16 == 0,
    {
        let (r, f) = alu::alu_rrc(value, set_zero);
        proof { crate::flags::lemma_flags_byte(set_zero && r == 0, false, false, value % 2 == 1); }
        self.f = f;
        r
    }

    /// SLA.
    pub fn shift_left_arithmetic(&mut self, value: u8) -> (r: u8)
        ensures
            r == alu::sla(value).0,
            *final(self) == (CPU { f: alu::sla(value).1, ..*old(self) }),
    {
        self.shift_with_flags(4, value)
    }

    /// SRA.
    pub fn shift_right_arithmetic(&mut self, value: u8) -> (r: u8)
        ensures
            r == alu::sra(value).0,
            *final(self) == (CPU { f: alu::sra(value).1, ..*old(self) }),
    {
        self.shift_with_flags(5, value)
    }

    /// SRL.
    pub fn shift_right_logical(&mut self, value: u8) -> (r: u8)
        ensures
            r == alu::srl(value).0,
            *final(self) == (CPU { f: alu::srl(value).1, ..*old(self) }),
    {
        self.shift_with_flags(7, value)
    }

    /// SWAP.
    pub fn swap_nibbles(&mut self, value: u8) -> (r: u8)
        ensures
            r == alu::swap(value).0,
            *final(self) == (CPU { f: alu::swap(value).1, ..*old(self) }),
    {
        self.shift_with_flags(6, value)
    }

    /// BIT bit,value: Z is set when the bit is clear; N cleared, H set, C kept.
    pub fn test_bit(&mut self, value: u8, bit: u8)
        requires
            bit < 8,
        ensures
            *final(self) == (CPU { f: alu::bit_test(value, bit, old(self).f), ..*old(self) }),
            final(self).f % 16 == 0,
    {
        let set = (value >> bit) & 1 == 1;
        proof { crate::flags::lemma_flags_byte(!set, false, true, flag_c(self.f)); }
        self.f = make_flags(!set, false, true, carry_of(self.f));
    }

    /// SET bit,value.
    pub fn set_bit(value: u8, bit: u8) -> (r: u8)
        requires
            bit < 8,
        ensures
            r == value | (1u8 << bit),
    {
        value | (1u8 << bit)
    }

    /// RES bit,value.
    pub fn reset_bit(value: u8, bit: u8) -> (r: u8)
        requires
            bit < 8,
        ensures
            r == value & !(1u8 << bit),
    {
        value & !(1u8 << bit)
    }
}

proof fn lemma_shift_flags_wf(kind: u8, v: u8, f: u8)
    ensures
        alu::shift_op(kind, v, f).1 % 16 == 0,
{
    crate::flags::lemma_flags_byte(((v * 2) % 256 + v / 128) as u8 == 0, false, false, v >= 128);
    crate::flags::lemma_flags_byte((v / 2 + (v % 2) * 128) as u8 == 0, false, false, v % 2 == 1);
    crate::flags::lemma_flags_byte(((v * 2) % 256 + alu::b2i(flag_c(f))) as u8 == 0, false, false, v >= 128);
    crate::flags::lemma_flags_byte((v / 2 + alu::b2i(flag_c(f)) * 128) as u8 == 0, false, false, v % 2 == 1);
    crate::flags::lemma_flags_byte(((v * 2) % 256) as u8 == 0, false, false, v >= 128);
    crate::flags::lemma_flags_byte((v / 2 + (if v >= 128 { 128int } else { 0int })) as u8 == 0, false, false, v % 2 == 1);
    crate::flags::lemma_flags_byte(((v % 16) * 16 + v / 16) as u8 == 0, false, false, false);
    crate::flags::lemma_flags_byte((v / 2) as u8 == 0, false, false, v % 2 == 1);
}

impl CPU {
    /// Reads operand `idx` of the eight-fold encoding; 6 reads the byte at HL.
    pub fn get_r8(&self, mmu: &MMU, idx: u8) -> (r: u8)
        requires
            mmu.wf(),
            idx < 8,
        ensures
            r == (if idx == 6 { mmu.read_spec(self.spec_hl()) } else { self.reg(idx) }),
    {
        if idx == 0 {
            self.b
        } else if idx == 1 {
            self.c
        } else if idx == 2 {
            self.d
        } else if idx == 3 {
            self.e
        } else if idx == 4 {
            self.h
        } else if idx == 5 {
            self.l
        } else if idx == 6 {
            mmu.read(self.hl())
        } else {
            self.a
        }
    }

    /// Writes operand `idx` of the eight-fold encoding; 6 writes the byte at HL.
    pub fn set_r8(&mut self, mmu: &mut MMU, idx: u8, v: u8)
        requires
            old(mmu).wf(),
            idx < 8,
        ensures
            final(mmu).wf(),
            idx != 6 ==> *final(self) == old(self).with_reg(idx, v) && *final(mmu) == *old(mmu),
            idx == 6 ==> *final(self) == *old(self) && old(mmu).write_ok(old(self).spec_hl(), v, *final(mmu)),
    {
        if idx == 0 {
            self.b = v;
        } else if idx == 1 {
            self.c = v;
        } else if idx == 2 {
            self.d = v;
        } else if idx == 3 {
            self.e = v;
        } else if idx == 4 {
            self.h = v;
        } else if idx == 5 {
            self.l = v;
        } else if idx == 6 {
            let hl = self.hl();
            mmu.write(hl, v);
        } else {
            self.a = v;
        }
    }

    fn condition(&self, flag: u8, use_condition: bool, condition: bool) -> (r: bool)
        requires
            flag < 8,
        ensures
            r == self.condition_holds(flag, use_condition, condition),
    {
        !use_condition || ((self.f >> flag) & 1 == 1) == condition
    }

    /// JP nn (conditional when `use_condition`): 16 cycles taken, 12 not.
    pub fn jump(&mut self, mmu: &MMU, flag: u8, use_condition: bool, condition: bool) -> (r: u16)
        requires
            mmu.wf(),
            flag < 8,
        ensures
            old(self).condition_holds(flag, use_condition, condition) ==> r == 16 && *final(self) == (CPU {
                pc: word_of(mmu.read_spec(add16_wrap(old(self).pc, 1)), mmu.read_spec(old(self).pc)),
                ..*old(self)
            }),
            !old(self).condition_holds(flag, use_condition, condition) ==> r == 12 && *final(self) == (CPU {
                pc: add16_wrap(old(self).pc, 2),
                ..*old(self)
            }),
    {
        let address = self.read_immediate_word(mmu);
        if self.condition(flag, use_condition, condition) {
            self.pc = address;
            16
        } else {
            12
        }
    }

    /// JR e (conditional when `use_condition`): the signed offset is added to
    /// PC after the operand fetch; 12 cycles taken, 8 not.
    pub fn jump_immediate(&mut self, mmu: &MMU, flag: u8, use_condition: bool, condition: bool) -> (r: u16)
        requires
            mmu.wf(),
            flag < 8,
        ensures
            old(self).condition_holds(flag, use_condition, condition) ==> r == 12 && *final(self) == (CPU {
                pc: jr_target(old(self).pc, mmu.read_spec(old(self).pc)),
                ..*old(self)
            }),
            !old(self).condition_holds(flag, use_condition, condition) ==> r == 8 && *final(self) == (CPU {
                pc: add16_wrap(old(self).pc, 1),
                ..*old(self)
            }),
    {
        let offset = self.read_immediate_byte(mmu);
        if self.condition(flag, use_condition, condition) {
            if offset < 128 {
                self.pc = self.pc.wrapping_add(offset as u16);
            } else {
                self.pc = self.pc.wrapping_sub(256 - offset as u16);
            }
            12
        } else {
            8
        }
    }

    /// CALL nn (conditional when `use_condition`): pushes the address after
    /// the operand; 24 cycles taken, 12 not.
    pub fn call(&mut self, mmu: &mut MMU, flag: u8, use_condition: bool, condition: bool) -> (r: u16)
        requires
            old(mmu).wf(),
            flag < 8,
        ensures
            final(mmu).wf(),
            old(self).condition_holds(flag, use_condition, condition) ==> r == 24 && *final(self) == (CPU {
                pc: word_of(old(mmu).read_spec(add16_wrap(old(self).pc, 1)), old(mmu).read_spec(old(self).pc)),
                sp: add16_wrap(old(self).sp, -2),
                ..*old(self)
            }) && pushed(*old(mmu), old(self).sp, add16_wrap(old(self).pc, 2), *final(mmu)),
            !old(self).condition_holds(flag, use_condition, condition) ==> r == 12 && *final(self) == (CPU {
                pc: add16_wrap(old(self).pc, 2),
                ..*old(self)
            }) && *final(mmu) == *old(mmu),
    {
        let address = self.read_immediate_word(mmu);
        if self.condition(flag, use_condition, condition) {
            let pc = self.pc;
            self.push_stack(mmu, pc);
            self.pc = address;
            24
        } else {
            12
        }
    }

    /// RST: pushes PC and jumps to `offset`; 16 cycles.
    pub fn restart(&mut self, mmu: &mut MMU, offset: u16) -> (r: u16)
        requires
            old(mmu).wf(),
        ensures
            final(mmu).wf(),
            r == 16,
            *final(self) == (CPU { pc: offset, sp: add16_wrap(old(self).sp, -2), ..*old(self) }),
            pushed(*old(mmu), old(self).sp, old(self).pc, *final(mmu)),
    {
        let pc = self.pc;
        self.push_stack(mmu, pc);
        self.pc = offset;
        16
    }

    /// RET (conditional when `use_condition`): 16 cycles unconditional, 20
    /// taken, 8 not.
    pub fn return_from_call(&mut self, mmu: &MMU, flag: u8, use_condition: bool, condition: bool) -> (r: u16)
        requires
            mmu.wf(),
            flag < 8,
        ensures
            old(self).condition_holds(flag, use_condition, condition) ==> r == (if use_condition { 20u16 } else { 16u16 })
                && *final(self) == (CPU {
                pc: word_of(mmu.read_spec(add16_wrap(old(self).sp, 1)), mmu.read_spec(old(self).sp)),
                sp: add16_wrap(old(self).sp, 2),
                ..*old(self)
            }),
            !old(self).condition_holds(flag, use_condition, condition) ==> r == 8 && *final(self) == *old(self),
    {
        if self.condition(flag, use_condition, condition) {
            self.pc = self.pop_stack(mmu);
            if use_condition { 20 } else { 16 }
        } else {
            8
        }
    }
}

proof fn lemma_pop_af(w: u16)
    ensures
        (low_byte(w) & 0xF0) % 16 == 0,
{
    let x = low_byte(w);
    assert((x & 0xF0) % 16 == 0) by (bit_vector);
}

impl CPU {
    /// LD r,r' and HALT (0x40-0x7F).
    fn execute_load(&mut self, mmu: &mut MMU, opcode: u8) -> (r: u16)
        requires
            old(self).wf(),
            old(mmu).wf(),
            0x40 <= opcode <= 0x7F,
        ensures
            final(self).wf(),
            final(mmu).wf(),
            is_cycle_cost(r),
            load_effect(*old(self), opcode) matches Some(n) ==> *final(self) == n && *final(mmu) == *old(mmu),
            opcode % 8 == 6 && opcode != 0x76 ==> *final(self) == old(self).with_reg((opcode / 8) % 8, old(mmu).read_spec(old(self).spec_hl()))
                && *final(mmu) == *old(mmu),
            0x70 <= opcode <= 0x77 && opcode != 0x76 ==> *final(self) == *old(self)
                && old(mmu).write_ok(old(self).spec_hl(), old(self).reg(opcode % 8), *final(mmu)),
            r == (if opcode == 0x76 { 4u16 } else if opcode % 8 == 6 || (opcode / 8) % 8 == 6 { 8u16 } else { 4u16 }),
            final(self).pending_interrupt == (if opcode == 0xFB { Some(true) } else if opcode == 0xF3 { Some(false) } else { old(self).pending_interrupt }),
            final(self).interrupts_enabled == (opcode == 0xD9 || old(self).interrupts_enabled),
    {
        reveal(load_effect);
        if opcode == 0x76 {
            self.halted = true;
            return 4;
        }
        let dst = (opcode / 8) % 8;
        let src = opcode % 8;
        let v = self.get_r8(mmu, src);
        self.set_r8(mmu, dst, v);
        if dst == 6 || src == 6 { 8 } else { 4 }
    }

    /// The eight accumulator operations on the eight operands (0x80-0xBF).
    fn execute_alu(&mut self, mmu: &mut MMU, opcode: u8) -> (r: u16)
        requires
            old(self).wf(),
            old(mmu).wf(),
            0x80 <= opcode <= 0xBF,
        ensures
            final(self).wf(),
            final(mmu).wf(),
            *final(mmu) == *old(mmu),
            is_cycle_cost(r),
            opcode % 8 != 6 ==> *final(self) == (CPU {
                a: alu_spec((opcode / 8) % 8, old(self).a, old(self).reg(opcode % 8), old(self).f).0,
                f: alu_spec((opcode / 8) % 8, old(self).a, old(self).reg(opcode % 8), old(self).f).1,
                ..*old(self)
            }),
            opcode % 8 == 6 ==> *final(self) == (CPU {
                a: alu_spec((opcode / 8) % 8, old(self).a, old(mmu).read_spec(old(self).spec_hl()), old(self).f).0,
                f: alu_spec((opcode / 8) % 8, old(self).a, old(mmu).read_spec(old(self).spec_hl()), old(self).f).1,
                ..*old(self)
            }),
            r == (if opcode % 8 == 6 { 8u16 } else { 4u16 }),
            final(self).pending_interrupt == (if opcode == 0xFB { Some(true) } else if opcode == 0xF3 { Some(false) } else { old(self).pending_interrupt }),
            final(self).interrupts_enabled == (opcode == 0xD9 || old(self).interrupts_enabled),
    {
        let src = opcode % 8;
        let v = self.get_r8(mmu, src);
        self.alu_a((opcode / 8) % 8, v);
        if src == 6 { 8 } else { 4 }
    }

    /// The 16-bit register pair selected by bits 4-5 of an opcode: BC, DE, HL, SP.
    fn get_r16(&self, idx: u8) -> (r: u16)
        requires
            idx < 4,
        ensures
            r == self.r16(idx),
    {
        if idx == 0 {
            self.bc()
        } else if idx == 1 {
            self.de()
        } else if idx == 2 {
            self.hl()
        } else {
            self.sp
        }
    }

    fn set_r16(&mut self, idx: u8, w: u16)
        requires
            idx < 4,
        ensures
            *final(self) == old(self).with_r16(idx, w),
    {
        if idx == 0 {
            self.set_bc(w);
        } else if idx == 1 {
            self.set_de(w);
        } else if idx == 2 {
            self.set_hl(w);
        } else {
            self.sp = w;
        }
    }

    /// The primary opcodes 0x00-0x3F.
    fn execute_low(&mut self, mmu: &mut MMU, opcode: u8) -> (r: u16)
        requires
            old(self).wf(),
            old(mmu).wf(),
            opcode < 0x40,
        ensures
            final(self).wf(),
            final(mmu).wf(),
            is_cycle_cost(r),
            low_effect(*old(self), opcode) matches Some(n) ==> *final(self) == n && *final(mmu) == *old(mmu),
            low_read_effect(*old(self), *old(mmu), opcode) matches Some(n) ==> *final(self) == n && *final(mmu) == *old(mmu),
            low_write_effect(*old(self), *old(mmu), opcode) matches Some(e) ==> *final(self) == e.0 && old(mmu).write_ok(e.1, e.2, *final(mmu)),
            opcode == 0x08 ==> *final(self) == (CPU { pc: add16_wrap(old(self).pc, 2), ..*old(self) }) && stored_word(
                *old(mmu),
                word_of(old(mmu).read_spec(add16_wrap(old(self).pc, 1)), old(mmu).read_spec(old(self).pc)),
                old(self).sp,
                *final(mmu),
            ),
            r == low_cycles(*old(self), opcode),
            final(self).pending_interrupt == (if opcode == 0xFB { Some(true) } else if opcode == 0xF3 { Some(false) } else { old(self).pending_interrupt }),
            final(self).interrupts_enabled == (opcode == 0xD9 || old(self).interrupts_enabled),
    {
        let low = opcode % 8;
        if low == 4 || low == 5 || low == 6 {
            self.execute_low_r8(mmu, opcode)
        } else if opcode % 16 == 1 || opcode % 16 == 3 || opcode % 16 == 0x0B || opcode % 16 == 9 {
            proof { lemma_low_effect_r16(*self, opcode); }
            self.execute_low_r16(mmu, opcode)
        } else if opcode % 16 == 2 || opcode % 16 == 0x0A {
            proof { lemma_indirect_effect(*self, *mmu, opcode); }
            self.execute_indirect(mmu, opcode)
        } else if opcode == 0x08 {
            proof { lemma_store_sp_effects(*self, *mmu); }
            self.store_sp(mmu)
        } else {
            self.execute_low_misc(mmu, opcode)
        }
    }

    /// INC r, DEC r and LD r,n.
    fn execute_low_r8(&mut self, mmu: &mut MMU, opcode: u8) -> (r: u16)
        requires
            old(self).wf(),
            old(mmu).wf(),
            opcode < 0x40,
            opcode % 8 == 4 || opcode % 8 == 5 || opcode % 8 == 6,
        ensures
            final(self).wf(),
            final(mmu).wf(),
            is_cycle_cost(r),
            low_effect(*old(self), opcode) matches Some(n) ==> *final(self) == n && *final(mmu) == *old(mmu),
            low_read_effect(*old(self), *old(mmu), opcode) matches Some(n) ==> *final(self) == n && *final(mmu) == *old(mmu),
            low_write_effect(*old(self), *old(mmu), opcode) matches Some(e) ==> *final(self) == e.0 && old(mmu).write_ok(e.1, e.2, *final(mmu)),
            r == low_cycles(*old(self), opcode),
            final(self).pending_interrupt == (if opcode == 0xFB { Some(true) } else if opcode == 0xF3 { Some(false) } else { old(self).pending_interrupt }),
            final(self).interrupts_enabled == (opcode == 0xD9 || old(self).interrupts_enabled),
    {
        reveal(low_cycles);
        reveal(low_write_effect);
        reveal(low_effect);
        reveal(low_read_effect);
        let row = (opcode / 8) % 8;
        if opcode % 8 == 4 {
            let v = self.get_r8(mmu, row);
            let r = self.inc_8bit(v);
            self.set_r8(mmu, row, r);
            if row == 6 { 12 } else { 4 }
        } else if opcode % 8 == 5 {
            let v = self.get_r8(mmu, row);
            let r = self.dec_8bit(v);
            self.set_r8(mmu, row, r);
            if row == 6 { 12 } else { 4 }
        } else {
            let n = self.read_immediate_byte(mmu);
            self.set_r8(mmu, row, n);
            if row == 6 { 12 } else { 8 }
        }
    }

    /// LD rr,nn, INC rr, DEC rr and ADD HL,rr.
    #[verifier::rlimit(80)]
    fn execute_low_r16(&mut self, mmu: &mut MMU, opcode: u8) -> (r: u16)
        requires
            old(self).wf(),
            old(mmu).wf(),
            opcode < 0x40,
            opcode % 16 == 1 || opcode % 16 == 3 || opcode % 16 == 0x0B || opcode % 16 == 9,
        ensures
            final(self).wf(),
            final(mmu).wf(),
            is_cycle_cost(r),
            r16_effect(*old(self), opcode) matches Some(n) ==> *final(self) == n && *final(mmu) == *old(mmu),
            low_read_effect(*old(self), *old(mmu), opcode) matches Some(n) ==> *final(self) == n && *final(mmu) == *old(mmu),
            low_write_effect(*old(self), *old(mmu), opcode) matches Some(e) ==> *final(self) == e.0 && old(mmu).write_ok(e.1, e.2, *final(mmu)),
            r == low_cycles(*old(self), opcode),
            final(self).pending_interrupt == (if opcode == 0xFB { Some(true) } else if opcode == 0xF3 { Some(false) } else { old(self).pending_interrupt }),
            final(self).interrupts_enabled == (opcode == 0xD9 || old(self).interrupts_enabled),
    {
        reveal(low_cycles);
        proof { lemma_low_write_none(*self, *mmu, opcode); }
        reveal(r16_effect);
        reveal(low_read_effect);
        let pair = (opcode / 16) % 4;
        if opcode % 16 == 1 {
            let w = self.read_immediate_word(mmu);
            self.set_r16(pair, w);
            12
        } else if opcode % 16 == 3 {
            let w = self.get_r16(pair).wrapping_add(1);
            self.set_r16(pair, w);
            8
        } else if opcode % 16 == 0x0B {
            let w = self.get_r16(pair).wrapping_sub(1);
            self.set_r16(pair, w);
            8
        } else {
            let w = self.get_r16(pair);
            self.add_16bit(w);
            8
        }
    }

    /// LD (BC)/(DE)/(HL+)/(HL-),A and the loads back into A.
    fn execute_indirect(&mut self, mmu: &mut MMU, opcode: u8) -> (r: u16)
        requires
            old(self).wf(),
            old(mmu).wf(),
            opcode < 0x40,
            opcode % 16 == 2 || opcode % 16 == 0x0A,
        ensures
            final(self).wf(),
            final(mmu).wf(),
            is_cycle_cost(r),
            indirect_effect(*old(self), *old(mmu), opcode) matches Some(n) ==> *final(self) == n && *final(mmu) == *old(mmu),
            low_write_effect(*old(self), *old(mmu), opcode) matches Some(e) ==> *final(self) == e.0 && old(mmu).write_ok(e.1, e.2, *final(mmu)),
            r == low_cycles(*old(self), opcode),
            final(self).pending_interrupt == (if opcode == 0xFB { Some(true) } else if opcode == 0xF3 { Some(false) } else { old(self).pending_interrupt }),
            final(self).interrupts_enabled == (opcode == 0xD9 || old(self).interrupts_enabled),
    {
        reveal(low_cycles);
        reveal(low_write_effect);
        reveal(indirect_effect);
        let pair = (opcode / 16) % 4;
        let address = if pair == 0 {
            self.bc()
        } else if pair == 1 {
            self.de()
        } else {
            self.hl()
        };
        if opcode % 16 == 2 {
            mmu.write(address, self.a);
        } else {
            self.a = mmu.read(address);
        }
        if pair == 2 {
            self.set_hl(address.wrapping_add(1));
        } else if pair == 3 {
            self.set_hl(address.wrapping_sub(1));
        }
        8
    }

    /// LD (nn),SP: stores SP at the immediate address, low byte first.
    fn store_sp(&mut self, mmu: &mut MMU) -> (r: u16)
        requires
            old(mmu).wf(),
        ensures
            final(mmu).wf(),
            r == 20,
            *final(self) == (CPU { pc: add16_wrap(old(self).pc, 2), ..*old(self) }),
            stored_word(
                *old(mmu),
                word_of(old(mmu).read_spec(add16_wrap(old(self).pc, 1)), old(mmu).read_spec(old(self).pc)),
                old(self).sp,
                *final(mmu),
            ),
            final(self).pending_interrupt == old(self).pending_interrupt,
    {
        let address = self.read_immediate_word(mmu);
        let sp = self.sp;
        mmu.write(address, sp.lo());
        let ghost mid = *mmu;
        mmu.write(address.wrapping_add(1), sp.hi());
        assert(old(mmu).write_ok(address, low_byte(sp), mid));
        20
    }

    /// The remaining opcodes of 0x00-0x3F: NOP, STOP, JR, the A rotates, DAA, CPL, SCF, CCF.
    fn execute_low_misc(&mut self, mmu: &mut MMU, opcode: u8) -> (r: u16)
        requires
            old(self).wf(),
            old(mmu).wf(),
            opcode < 0x40,
            opcode % 8 == 0 || opcode % 8 == 7,
            opcode != 0x08,
        ensures
            final(self).wf(),
            final(mmu).wf(),
            is_cycle_cost(r),
            low_effect(*old(self), opcode) matches Some(n) ==> *final(self) == n && *final(mmu) == *old(mmu),
            low_read_effect(*old(self), *old(mmu), opcode) matches Some(n) ==> *final(self) == n && *final(mmu) == *old(mmu),
            low_write_effect(*old(self), *old(mmu), opcode) matches Some(e) ==> *final(self) == e.0 && old(mmu).write_ok(e.1, e.2, *final(mmu)),
            r == low_cycles(*old(self), opcode),
            final(self).pending_interrupt == (if opcode == 0xFB { Some(true) } else if opcode == 0xF3 { Some(false) } else { old(self).pending_interrupt }),
            final(self).interrupts_enabled == (opcode == 0xD9 || old(self).interrupts_enabled),
    {
        reveal(low_cycles);
        proof { lemma_low_write_none(*self, *mmu, opcode); }
        reveal(low_effect);
        reveal(low_read_effect);
        match opcode {
            0x00 => 4,
            0x10 => {
                self.pc = self.pc.wrapping_add(1);
                4
            },
            0x18 => self.jump_immediate(mmu, 0, false, false),
            0x20 => self.jump_immediate(mmu, FLAG_ZERO, true, false),
            0x28 => self.jump_immediate(mmu, FLAG_ZERO, true, true),
            0x30 => self.jump_immediate(mmu, FLAG_CARRY, true, false),
            0x38 => self.jump_immediate(mmu, FLAG_CARRY, true, true),
            0x07 => {
                self.a = self.rotate_left_carry(self.a, false);
                4
            },
            0x0F => {
                self.a = self.rotate_right_carry(self.a, false);
                4
            },
            0x17 => {
                self.a = self.rotate_left(self.a, false);
                4
            },
            0x1F => {
                self.a = self.rotate_right(self.a, false);
                4
            },
            0x27 => {
                let (a, f) = alu::alu_daa(self.a, self.f);
                proof { lemma_daa_flags_wf(self.a, self.f); }
                self.a = a;
                self.f = f;
                4
            },
            0x2F => {
                self.a = !self.a;
                self.f = make_flags(zero_of(self.f), true, true, carry_of(self.f));
                4
            },
            0x37 => {
                self.f = make_flags(zero_of(self.f), false, false, true);
                4
            },
            // 0x3F, CCF
            _ => {
                self.f = make_flags(zero_of(self.f), false, false, !carry_of(self.f));
                4
            },
        }
    }
}

proof fn lemma_daa_flags_wf(a: u8, f: u8)
    ensures
        alu::daa(a, f).1 % 16 == 0,
{
    let (r, g) = alu::daa(a, f);
    crate::flags::lemma_flags_byte(r == 0, false, false, flag_c(f) || a > 0x99);
    crate::flags::lemma_flags_byte(r == 0, true, false, flag_c(f));
}

impl CPU {
    /// The primary opcodes 0xC0-0xFF but the CB prefix.
    fn execute_high(&mut self, mmu: &mut MMU, opcode: u8) -> (r: Result<u16, CpuError>)
        requires
            old(self).wf(),
            old(mmu).wf(),
            0xC0 <= opcode,
            opcode != 0xCB,
        ensures
            final(self).wf(),
            final(mmu).wf(),
            r is Err <==> is_invalid_opcode(opcode),
            r is Err ==> *final(self) == *old(self) && *final(mmu) == *old(mmu)
                && r == Err::<u16, CpuError>(CpuError::InvalidOpcode { opcode, pc: add16_wrap(old(self).pc, -1) }),
            r matches Ok(c) ==> is_cycle_cost(c),
            register_effect(*old(self), opcode) matches Some(n) ==> *final(self) == n && *final(mmu) == *old(mmu),
            read_effect(*old(self), *old(mmu), opcode) matches Some(n) ==> *final(self) == n && *final(mmu) == *old(mmu),
            high_write_effect(*old(self), *old(mmu), opcode) matches Some(e) ==> *final(self) == e.0 && old(mmu).write_ok(e.1, e.2, *final(mmu)),
            stack_write_effect(*old(self), *old(mmu), opcode) matches Some(e) ==> *final(self) == e.0 && pushed(*old(mmu), old(self).sp, e.1, *final(mmu)),
            r matches Ok(c) ==> c == high_cycles(*old(self), opcode),
            final(self).pending_interrupt == (if opcode == 0xFB { Some(true) } else if opcode == 0xF3 { Some(false) } else { old(self).pending_interrupt }),
            final(self).interrupts_enabled == (opcode == 0xD9 || old(self).interrupts_enabled),
    {
        let low = opcode % 8;
        proof {
            if !(opcode == 0xE0 || opcode == 0xE2 || opcode == 0xEA) {
                reveal(high_write_effect);
            }
            if !(opcode % 16 == 1 || opcode % 16 == 5) && (low == 6 || low == 7 || is_invalid_opcode(opcode) || !(low
                == 0 && opcode < 0xE0 || low == 2 && opcode < 0xE0 || low == 3 && opcode < 0xD0 || low == 4 || opcode
                == 0xC9 || opcode == 0xD9 || opcode == 0xCD)) {
                reveal(stack_write_effect);
            }
        }
        if low == 6 {
            proof { reveal(high_cycles); }
            let n = self.read_immediate_byte(mmu);
            self.alu_a((opcode / 8) % 8, n);
            Ok(8)
        } else if low == 7 {
            proof {
                reveal(misc_read_effect);
                reveal(high_cycles);
            }
            let target = (opcode - 0xC7) as u16;
            Ok(self.restart(mmu, target))
        } else if invalid_opcode(opcode) {
            proof { reveal(misc_read_effect); }
            Err(CpuError::InvalidOpcode { opcode, pc: self.pc.wrapping_sub(1) })
        } else if low == 0 && opcode < 0xE0 || low == 2 && opcode < 0xE0 || low == 3 && opcode < 0xD0 || low == 4
            || opcode == 0xC9 || opcode == 0xD9 || opcode == 0xCD {
            proof { lemma_flow_effects(*self, *mmu, opcode); }
            Ok(self.execute_flow(mmu, opcode))
        } else if opcode % 16 == 1 || opcode % 16 == 5 {
            proof { lemma_stack_effects(*self, *mmu, opcode); }
            Ok(self.execute_stack(mmu, opcode))
        } else {
            proof { lemma_misc_effects(*self, *mmu, opcode); }
            Ok(self.execute_high_misc(mmu, opcode))
        }
    }

    /// JP, CALL and RET, plain or conditional, and RETI.
    fn execute_flow(&mut self, mmu: &mut MMU, opcode: u8) -> (r: u16)
        requires
            old(self).wf(),
            old(mmu).wf(),
            0xC0 <= opcode,
            opcode != 0xCB,
            (opcode % 8 == 0 && opcode < 0xE0) || (opcode % 8 == 2 && opcode < 0xE0) || (opcode % 8 == 3 && opcode < 0xD0) || opcode == 0xC4 || opcode == 0xCC || opcode == 0xD4 || opcode == 0xDC || opcode == 0xC9 || opcode == 0xD9 || opcode == 0xCD,

        ensures
            final(self).wf(),
            final(mmu).wf(),
            is_cycle_cost(r),
            flow_effect(*old(self), *old(mmu), opcode) matches Some(n) ==> is_flow_read(opcode) ==> *final(self) == n && *final(mmu) == *old(mmu),
            stack_write_effect(*old(self), *old(mmu), opcode) matches Some(e) ==> *final(self) == e.0 && pushed(*old(mmu), old(self).sp, e.1, *final(mmu)),
            r == high_cycles(*old(self), opcode),
            final(self).pending_interrupt == (if opcode == 0xFB { Some(true) } else if opcode == 0xF3 { Some(false) } else { old(self).pending_interrupt }),
            final(self).interrupts_enabled == (opcode == 0xD9 || old(self).interrupts_enabled),
    {
        reveal(high_cycles);
        reveal(stack_write_effect);
        reveal(flow_effect);
        match opcode {
            0xC0 => self.return_from_call(mmu, FLAG_ZERO, true, false),
            0xC8 => self.return_from_call(mmu, FLAG_ZERO, true, true),
            0xD0 => self.return_from_call(mmu, FLAG_CARRY, true, false),
            0xD8 => self.return_from_call(mmu, FLAG_CARRY, true, true),
            0xC9 => self.return_from_call(mmu, 0, false, false),
            0xD9 => {
                self.pc = self.pop_stack(mmu);
                self.interrupts_enabled = true;
                16
            },
            0xC2 => self.jump(mmu, FLAG_ZERO, true, false),
            0xCA => self.jump(mmu, FLAG_ZERO, true, true),
            0xD2 => self.jump(mmu, FLAG_CARRY, true, false),
            0xDA => self.jump(mmu, FLAG_CARRY, true, true),
            0xC3 => self.jump(mmu, 0, false, false),
            0xC4 => self.call(mmu, FLAG_ZERO, true, false),
            0xCC => self.call(mmu, FLAG_ZERO, true, true),
            0xD4 => self.call(mmu, FLAG_CARRY, true, false),
            0xDC => self.call(mmu, FLAG_CARRY, true, true),
            _ => self.call(mmu, 0, false, false),
        }
    }

    /// PUSH and POP.
    fn execute_stack(&mut self, mmu: &mut MMU, opcode: u8) -> (r: u16)
        requires
            old(self).wf(),
            old(mmu).wf(),
            0xC0 <= opcode,
            opcode != 0xCB,
            opcode % 16 == 1 || opcode % 16 == 5,

        ensures
            final(self).wf(),
            final(mmu).wf(),
            is_cycle_cost(r),
            stack_effect(*old(self), *old(mmu), opcode) matches Some(n) ==> *final(self) == n && *final(mmu) == *old(mmu),
            stack_write_effect(*old(self), *old(mmu), opcode) matches Some(e) ==> *final(self) == e.0 && pushed(*old(mmu), old(self).sp, e.1, *final(mmu)),
            r == high_cycles(*old(self), opcode),
            final(self).pending_interrupt == (if opcode == 0xFB { Some(true) } else if opcode == 0xF3 { Some(false) } else { old(self).pending_interrupt }),
            final(self).interrupts_enabled == (opcode == 0xD9 || old(self).interrupts_enabled),
    {
        reveal(high_cycles);
        reveal(stack_write_effect);
        reveal(stack_effect);
        match opcode {
            0xC1 => {
                let w = self.pop_stack(mmu);
                self.set_bc(w);
                12
            },
            0xD1 => {
                let w = self.pop_stack(mmu);
                self.set_de(w);
                12
            },
            0xE1 => {
                let w = self.pop_stack(mmu);
                self.set_hl(w);
                12
            },
            0xF1 => {
                let w = self.pop_stack(mmu);
                proof { lemma_pop_af(w); }
                self.a = w.hi();
                self.f = w.lo() & 0xF0;
                12
            },
            0xC5 => {
                let w = self.bc();
                self.push_stack(mmu, w);
                16
            },
            0xD5 => {
                let w = self.de();
                self.push_stack(mmu, w);
                16
            },
            0xE5 => {
                let w = self.hl();
                self.push_stack(mmu, w);
                16
            },
            _ => {
                let w = self.af();
                self.push_stack(mmu, w);
                16
            },
        }
    }

    /// LDH, LD (C), LD (nn) in both directions, ADD SP,e, LD HL,SP+e, JP HL, LD SP,HL, DI and EI.
    fn execute_high_misc(&mut self, mmu: &mut MMU, opcode: u8) -> (r: u16)
        requires
            old(self).wf(),
            old(mmu).wf(),
            0xC0 <= opcode,
            opcode != 0xCB,
            !is_invalid_opcode(opcode) && (opcode == 0xE0 || opcode == 0xF0 || opcode == 0xE2 || opcode == 0xF2 || opcode == 0xEA || opcode == 0xFA || opcode == 0xE8 || opcode == 0xF8 || opcode == 0xE9 || opcode == 0xF9 || opcode == 0xF3 || opcode == 0xFB),

        ensures
            final(self).wf(),
            final(mmu).wf(),
            is_cycle_cost(r),
            register_effect(*old(self), opcode) matches Some(n) ==> *final(self) == n && *final(mmu) == *old(mmu),
            misc_read_effect(*old(self), *old(mmu), opcode) matches Some(n) ==> *final(self) == n && *final(mmu) == *old(mmu),
            high_write_effect(*old(self), *old(mmu), opcode) matches Some(e) ==> *final(self) == e.0 && old(mmu).write_ok(e.1, e.2, *final(mmu)),
            r == high_cycles(*old(self), opcode),
            final(self).pending_interrupt == (if opcode == 0xFB { Some(true) } else if opcode == 0xF3 { Some(false) } else { old(self).pending_interrupt }),
            final(self).interrupts_enabled == (opcode == 0xD9 || old(self).interrupts_enabled),
    {
        reveal(high_cycles);
        reveal(high_write_effect);
        reveal(misc_read_effect);
        match opcode {
            0xE0 => {
                let n = self.read_immediate_byte(mmu);
                mmu.write(u16::from_bytes(0xFF, n), self.a);
                12
            },
            0xF0 => {
                let n = self.read_immediate_byte(mmu);
                self.a = mmu.read(u16::from_bytes(0xFF, n));
                12
            },
            0xE2 => {
                mmu.write(u16::from_bytes(0xFF, self.c), self.a);
                8
            },
            0xF2 => {
                self.a = mmu.read(u16::from_bytes(0xFF, self.c));
                8
            },
            0xEA => {
                let address = self.read_immediate_word(mmu);
                mmu.write(address, self.a);
                16
            },
            0xFA => {
                let address = self.read_immediate_word(mmu);
                self.a = mmu.read(address);
                16
            },
            0xE8 => {
                let e = self.read_immediate_byte(mmu);
                let (sp, f) = alu::alu_add_sp(self.sp, e);
                proof { crate::flags::lemma_flags_byte(false, false, self.sp % 16 + e % 16 > 15, self.sp % 256 + e > 255); }
                self.sp = sp;
                self.f = f;
                16
            },
            0xF8 => {
                let e = self.read_immediate_byte(mmu);
                let (hl, f) = alu::alu_add_sp(self.sp, e);
                proof { crate::flags::lemma_flags_byte(false, false, self.sp % 16 + e % 16 > 15, self.sp % 256 + e > 255); }
                self.set_hl(hl);
                self.f = f;
                12
            },
            0xE9 => {
                self.pc = self.hl();
                4
            },
            0xF9 => {
                self.sp = self.hl();
                8
            },
            0xF3 => {
                self.pending_interrupt = Some(false);
                4
            },
            _ => {
                self.pending_interrupt = Some(true);
                4
            },
        }
    }

    /// A CB-prefixed instruction: fetches its second byte and runs it.
    /// Register operands: 8 cycles; the byte at HL: 16, or 12 for BIT.
    pub fn execute_extended(&mut self, mmu: &mut MMU) -> (r: u16)
        requires
            old(self).wf(),
            old(mmu).wf(),
        ensures
            final(self).wf(),
            final(mmu).wf(),
            is_cycle_cost(r),
            cb_on_register(old(mmu).read_spec(old(self).pc)) ==> {
                &&& *final(mmu) == *old(mmu)
                &&& *final(self) == cb_effect(
                    CPU { pc: add16_wrap(old(self).pc, 1), ..*old(self) },
                    old(mmu).read_spec(old(self).pc),
                )
                &&& r == 8
            },
            cb_write_effect(CPU { pc: add16_wrap(old(self).pc, 1), ..*old(self) }, *old(mmu), old(mmu).read_spec(old(self).pc))
                matches Some(e) ==> *final(self) == e.0 && old(mmu).write_ok(e.1, e.2, *final(mmu)),
            old(mmu).read_spec(old(self).pc) % 8 == 6 && old(mmu).read_spec(old(self).pc) / 64 == 1 ==> *final(mmu) == *old(mmu)
                && *final(self) == (CPU {
                pc: add16_wrap(old(self).pc, 1),
                f: alu::bit_test(
                    old(mmu).read_spec(old(self).spec_hl()),
                    (old(mmu).read_spec(old(self).pc) / 8) % 8,
                    old(self).f,
                ),
                ..*old(self)
            }),
            r == cb_cycles(old(mmu).read_spec(old(self).pc)),
            final(self).pending_interrupt == old(self).pending_interrupt,
            final(self).interrupts_enabled == old(self).interrupts_enabled,
    {
        let opcode = self.read_immediate_byte(mmu);
        let idx = opcode % 8;
        let bit = (opcode / 8) % 8;
        let group = opcode / 64;
        let value = self.get_r8(mmu, idx);
        if group == 0 {
            let r = self.shift_with_flags(bit, value);
            self.set_r8(mmu, idx, r);
        } else if group == 1 {
            self.test_bit(value, bit);
            return if idx == 6 { 12 } else { 8 };
        } else if group == 2 {
            self.set_r8(mmu, idx, CPU::reset_bit(value, bit));
        } else {
            self.set_r8(mmu, idx, CPU::set_bit(value, bit));
        }
        if idx == 6 { 16 } else { 8 }
    }
}

impl CPU {
    /// Runs the instruction `opcode`, already fetched (PC is past it), and
    /// returns its cycle cost; an undefined opcode is refused and changes
    /// nothing.
    pub fn execute(&mut self, mmu: &mut MMU, opcode: u8) -> (r: Result<u16, CpuError>)
        requires
            old(self).wf(),
            old(mmu).wf(),
        ensures
            final(self).wf(),
            final(mmu).wf(),
            r is Err <==> is_invalid_opcode(opcode),
            r is Err ==> {
                &&& *final(self) == *old(self)
                &&& *final(mmu) == *old(mmu)
                &&& r == Err::<u16, CpuError>(CpuError::InvalidOpcode { opcode, pc: add16_wrap(old(self).pc, -1) })
            },
            r matches Ok(c) ==> is_cycle_cost(c),
            register_effect(*old(self), opcode) matches Some(n) ==> *final(self) == n && *final(mmu) == *old(mmu),
            read_effect(*old(self), *old(mmu), opcode) matches Some(n) ==> *final(self) == n && *final(mmu) == *old(mmu),
            write_effect(*old(self), *old(mmu), opcode) matches Some(e) ==> *final(self) == e.0 && old(mmu).write_ok(e.1, e.2, *final(mmu)),
            opcode == 0xCB && cb_on_register(old(mmu).read_spec(old(self).pc)) ==> *final(mmu) == *old(mmu)
                && *final(self) == cb_effect(CPU { pc: add16_wrap(old(self).pc, 1), ..*old(self) }, old(mmu).read_spec(old(self).pc)),
            stack_write_effect(*old(self), *old(mmu), opcode) matches Some(e) ==> *final(self) == e.0 && pushed(*old(mmu), old(self).sp, e.1, *final(mmu)),
            opcode == 0xCB && old(mmu).read_spec(old(self).pc) % 8 == 6 && old(mmu).read_spec(old(self).pc) / 64 == 1 ==> *final(mmu) == *old(mmu)
                && *final(self) == (CPU {
                pc: add16_wrap(old(self).pc, 1),
                f: alu::bit_test(
                    old(mmu).read_spec(old(self).spec_hl()),
                    (old(mmu).read_spec(old(self).pc) / 8) % 8,
                    old(self).f,
                ),
                ..*old(self)
            }),
            opcode == 0x08 ==> *final(self) == (CPU { pc: add16_wrap(old(self).pc, 2), ..*old(self) }) && stored_word(
                *old(mmu),
                word_of(old(mmu).read_spec(add16_wrap(old(self).pc, 1)), old(mmu).read_spec(old(self).pc)),
                old(self).sp,
                *final(mmu),
            ),
            r matches Ok(c) ==> c == cycles_of(*old(self), *old(mmu), opcode),
            final(self).pending_interrupt == (if opcode == 0xFB { Some(true) } else if opcode == 0xF3 { Some(false) } else { old(self).pending_interrupt }),
            final(self).interrupts_enabled == (opcode == 0xD9 || old(self).interrupts_enabled),
    {
        proof {
            if opcode < 0xC0 || opcode == 0xCB {
                reveal(stack_write_effect);
            }
        }
        if opcode < 0x40 {
            Ok(self.execute_low(mmu, opcode))
        } else if opcode < 0x80 {
            Ok(self.execute_load(mmu, opcode))
        } else if opcode < 0xC0 {
            Ok(self.execute_alu(mmu, opcode))
        } else if opcode == 0xCB {
            proof { reveal(misc_read_effect); }
            Ok(self.execute_extended(mmu))
        } else {
            self.execute_high(mmu, opcode)
        }
    }

    /// What one step (`execute_next_opcode`) leaves and returns: the
    /// registers `next`, the bus `next_m` and the result `r`.
    #[verifier::opaque]
    pub open spec fn stepped(self, m: MMU, next: CPU, next_m: MMU, r: Result<u16, CpuError>) -> bool {
        &&& next.wf()
        &&& next_m.wf()
        &&& (self.halted ==> r == Ok::<u16, CpuError>(4) && next == self && next_m == m)
        &&& (!self.halted ==> (r is Err <==> is_invalid_opcode(m.read_spec(self.pc))))
        &&& (r matches Ok(c) ==> is_cycle_cost(c))
        &&& (!self.halted ==> {
            let op = m.read_spec(self.pc);
            let fetched = CPU { pc: add16_wrap(self.pc, 1), ..self };
            &&& (register_effect(fetched, op) matches Some(n) ==> next == after_delay(n, self.pending_interrupt, op)
                && next_m == m)
            &&& (read_effect(fetched, m, op) matches Some(n) ==> next == after_delay(n, self.pending_interrupt, op)
                && next_m == m)
            &&& (write_effect(fetched, m, op) matches Some(e) ==> next == after_delay(e.0, self.pending_interrupt, op)
                && m.write_ok(e.1, e.2, next_m))
            &&& (stack_write_effect(fetched, m, op) matches Some(e) ==> next == after_delay(e.0, self.pending_interrupt, op)
                && pushed(m, self.sp, e.1, next_m))
            &&& (r matches Ok(c) ==> c == cycles_of(fetched, m, op))
            &&& (r is Ok ==> next.pending_interrupt == (if op == 0xFB {
                Some(true)
            } else if op == 0xF3 {
                Some(false)
            } else {
                None::<bool>
            }))
            &&& (r is Ok ==> next.interrupts_enabled == (if op == 0xFB || op == 0xF3 {
                self.interrupts_enabled
            } else {
                match self.pending_interrupt {
                    Some(enable) => enable,
                    None => op == 0xD9 || self.interrupts_enabled,
                }
            }))
            &&& (r is Err ==> next == fetched && next_m == m)
            &&& (op == 0xCB && cb_on_register(m.read_spec(fetched.pc)) ==> next_m == m && next == after_delay(
                cb_effect(CPU { pc: add16_wrap(fetched.pc, 1), ..fetched }, m.read_spec(fetched.pc)),
                self.pending_interrupt,
                op,
            ))
            &&& (op == 0xCB && m.read_spec(fetched.pc) % 8 == 6 && m.read_spec(fetched.pc) / 64 == 1 ==> next_m == m
                && next == after_delay(
                CPU {
                    pc: add16_wrap(fetched.pc, 1),
                    f: alu::bit_test(m.read_spec(fetched.spec_hl()), (m.read_spec(fetched.pc) / 8) % 8, fetched.f),
                    ..fetched
                },
                self.pending_interrupt,
                op,
            ))
            &&& (op == 0x08 ==> next == after_delay(CPU { pc: add16_wrap(fetched.pc, 2), ..fetched }, self.pending_interrupt, op)
                && stored_word(
                m,
                word_of(m.read_spec(add16_wrap(fetched.pc, 1)), m.read_spec(fetched.pc)),
                fetched.sp,
                next_m,
            ))
        })
    }

    /// What `do_interrupts` leaves and returns: with a request bit set in
    /// both IE and IF, HALT ends; with IME set too, the lowest such request
    /// is serviced (IF bit cleared, PC pushed, vector loaded) for 20 cycles.
    #[verifier::opaque]
    pub open spec fn serviced(self, m: MMU, next: CPU, next_m: MMU, r: u16) -> bool {
        let pending = m.interrupt_enable & m.interrupt_flag & 0x1F;
        &&& next_m.wf()
        &&& (pending == 0 ==> r == 0 && next == self && next_m == m)
        &&& (pending != 0 && !self.interrupts_enabled ==> r == 0 && next == (CPU { halted: false, ..self }) && next_m == m)
        &&& (pending != 0 && self.interrupts_enabled ==> {
            let id = lowest_bit(pending);
            &&& r == 20
            &&& next == (CPU {
                halted: false,
                interrupts_enabled: false,
                pc: (0x40 + 8 * id) as u16,
                sp: add16_wrap(self.sp, -2),
                ..self
            })
            &&& pushed(with_request_cleared(m, id), self.sp, self.pc, next_m)
        })
    }

    /// One step: while halted, 4 idle cycles; otherwise fetches the opcode at
    /// PC and runs it. A pending EI/DI takes effect after the instruction
    /// that follows it, unless that instruction is itself EI or DI.
    pub fn execute_next_opcode(&mut self, mmu: &mut MMU) -> (r: Result<u16, CpuError>)
        requires
            old(self).wf(),
            old(mmu).wf(),
        ensures
            final(self).wf(),
            final(mmu).wf(),
            r matches Ok(c) ==> is_cycle_cost(c),
            old(self).stepped(*old(mmu), *final(self), *final(mmu), r),
    {
        proof { reveal(CPU::stepped); }
        if self.halted {
            return Ok(4);
        }
        let pending = self.pending_interrupt;
        let opcode = self.read_immediate_byte(mmu);
        let result = self.execute(mmu, opcode);
        proof {
            if is_invalid_opcode(opcode) {
                lemma_invalid_has_no_effect(*old(self), *old(mmu), opcode);
            }
        }
        if result.is_ok() && opcode != 0xFB && opcode != 0xF3 {
            match pending {
                Some(enable) => {
                    self.interrupts_enabled = enable;
                    self.pending_interrupt = None;
                },
                None => {},
            }
        }
        result
    }

    /// Jumps to the handler of interrupt `id`: clears IME, HALT and IF bit
    /// `id`, pushes PC and loads the vector 0x40 + 8 * id.
    pub fn service_interrupt(&mut self, mmu: &mut MMU, id: u8)
        requires
            old(mmu).wf(),
            id < 5,
        ensures
            final(mmu).wf(),
            *final(self) == (CPU {
                halted: false,
                interrupts_enabled: false,
                pc: (0x40 + 8 * id) as u16,
                sp: add16_wrap(old(self).sp, -2),
                ..*old(self)
            }),
            pushed(with_request_cleared(*old(mmu), id), old(self).sp, old(self).pc, *final(mmu)),
    {
        self.halted = false;
        self.interrupts_enabled = false;
        mmu.interrupt_flag = mmu.interrupt_flag & !(1u8 << id);
        let pc = self.pc;
        self.push_stack(mmu, pc);
        self.pc = 0x40 + 8 * id as u16;
    }

    /// Services at most one pending interrupt, the lowest-numbered bit set
    /// in both IE and IF. Any such bit ends HALT even with IME clear; with
    /// IME set it is serviced, and 20 cycles are returned (else 0).
    pub fn do_interrupts(&mut self, mmu: &mut MMU) -> (r: u16)
        requires
            old(mmu).wf(),
        ensures
            final(mmu).wf(),
            final(self).f == old(self).f,
            r == 0 || r == 20,
            old(self).serviced(*old(mmu), *final(self), *final(mmu), r),
    {
        proof { reveal(CPU::serviced); }
        let enabled = mmu.interrupt_enable;
        let requested = mmu.interrupt_flag;
        let pending = enabled & requested & 0x1F;
        assert(pending < 32) by (bit_vector)
            requires pending == enabled & requested & 0x1F;
        if pending == 0 {
            return 0;
        }
        self.halted = false;
        if !self.interrupts_enabled {
            return 0;
        }
        let mut id: u8 = 0;
        while id < 4 && (pending >> id) & 1 == 0
            invariant
                id <= 4,
                pending != 0,
                pending < 32,
                forall|j: u8| j < id ==> (pending >> j) & 1 == 0,
                lowest_bit(pending) >= id,
            decreases 4 - id,
        {
            proof { lemma_lowest_bit_step(pending, id); }
            id = id + 1;
        }
        proof { lemma_lowest_bit_found(pending, id); }
        self.service_interrupt(mmu, id);
        20
    }
}

/// The registers after an instruction `op` that left them as `n`, once a
/// pending EI/DI from before it takes effect (it waits when `op` is itself EI
/// or DI).
pub open spec fn after_delay(n: CPU, pending: Option<bool>, op: u8) -> CPU {
    match pending {
        Some(enable) => if op != 0xFB && op != 0xF3 {
            CPU { interrupts_enabled: enable, pending_interrupt: None, ..n }
        } else {
            n
        },
        None => n,
    }
}

proof fn lemma_invalid_has_no_effect(cpu: CPU, m: MMU, op: u8)
    requires
        is_invalid_opcode(op),
    ensures
        register_effect(CPU { pc: add16_wrap(cpu.pc, 1), ..cpu }, op) is None,
        read_effect(CPU { pc: add16_wrap(cpu.pc, 1), ..cpu }, m, op) is None,
        write_effect(CPU { pc: add16_wrap(cpu.pc, 1), ..cpu }, m, op) is None,
        stack_write_effect(CPU { pc: add16_wrap(cpu.pc, 1), ..cpu }, m, op) is None,
{
    reveal(misc_read_effect);
    reveal(high_write_effect);
    reveal(stack_write_effect);
}

/// The bus with IF bit `id` cleared.
pub open spec fn with_request_cleared(m: MMU, id: u8) -> MMU {
    MMU { interrupt_flag: m.interrupt_flag & !(1u8 << id), ..m }
}

/// The position of the lowest set bit of a non-zero five-bit value.
pub open spec fn lowest_bit(v: u8) -> u8 {
    if (v >> 0u8) & 1 == 1 {
        0
    } else if (v >> 1u8) & 1 == 1 {
        1
    } else if (v >> 2u8) & 1 == 1 {
        2
    } else if (v >> 3u8) & 1 == 1 {
        3
    } else {
        4
    }
}

proof fn lemma_lowest_bit_step(v: u8, id: u8)
    requires
        id < 4,
        (v >> id) & 1 == 0,
        forall|j: u8| j < id ==> (v >> j) & 1 == 0,
    ensures
        lowest_bit(v) >= id + 1,
{
    assert((v >> 0u8) & 1 == 0 ==> id != 0 || (v >> id) & 1 == 0);
    if id >= 1 { assert((v >> 0u8) & 1 == 0); }
    if id >= 2 { assert((v >> 1u8) & 1 == 0); }
    if id >= 3 { assert((v >> 2u8) & 1 == 0); }
}

proof fn lemma_lowest_bit_found(v: u8, id: u8)
    requires
        id <= 4,
        id == 4 || (v >> id) & 1 != 0,
        forall|j: u8| j < id ==> (v >> j) & 1 == 0,
        lowest_bit(v) >= id,
    ensures
        lowest_bit(v) == id,
{
    assert(forall|x: u8| (x >> 0u8) & 1 != 0 ==> (x >> 0u8) & 1 == 1) by (bit_vector);
    assert(forall|x: u8| (x >> 1u8) & 1 != 0 ==> (x >> 1u8) & 1 == 1) by (bit_vector);
    assert(forall|x: u8| (x >> 2u8) & 1 != 0 ==> (x >> 2u8) & 1 == 1) by (bit_vector);
    assert(forall|x: u8| (x >> 3u8) & 1 != 0 ==> (x >> 3u8) & 1 == 1) by (bit_vector);
}

/// Writing a 16-bit register pair and reading it back gives the word
/// written; splitting a pair into its bytes and joining them gives it back.
pub proof fn lemma_register_pair_round_trip(cpu: CPU, idx: u8, w: u16)
    requires
        idx < 4,
    ensures
        cpu.with_r16(idx, w).r16(idx) == w,
        word_of(high_byte(cpu.r16(idx)), low_byte(cpu.r16(idx))) == cpu.r16(idx),
        high_byte(cpu.spec_af()) == cpu.a && low_byte(cpu.spec_af()) == cpu.f,
{
    crate::bits::lemma_word_split(w);
    crate::bits::lemma_word_split(cpu.r16(idx));
    crate::bits::lemma_word_join(cpu.a, cpu.f);
}

/// EI takes effect after the instruction that follows it: right after EI,
/// IME is as before and an enable is pending; after a next instruction that
/// is neither EI nor DI, IME is set and nothing is pending.
pub proof fn lemma_ei_delay(
    c0: CPU,
    m0: MMU,
    c1: CPU,
    m1: MMU,
    r1: Result<u16, CpuError>,
    c2: CPU,
    m2: MMU,
    r2: Result<u16, CpuError>,
)
    requires
        !c0.halted,
        m0.read_spec(c0.pc) == 0xFB,
        c0.stepped(m0, c1, m1, r1),
        c1.stepped(m1, c2, m2, r2),
        m1.read_spec(c1.pc) != 0xFB,
        m1.read_spec(c1.pc) != 0xF3,
        r2 is Ok,
    ensures
        r1 is Ok,
        c1.interrupts_enabled == c0.interrupts_enabled,
        c1.pending_interrupt == Some(true),
        !c1.halted,
        c2.interrupts_enabled,
        c2.pending_interrupt is None,
{
    reveal(CPU::stepped);
    let fetched = CPU { pc: add16_wrap(c0.pc, 1), ..c0 };
    assert(register_effect(fetched, 0xFB) == Some(CPU { pending_interrupt: Some(true), ..fetched }));
}

} // verus!
