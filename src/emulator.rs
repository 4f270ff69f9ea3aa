//! The core object: the CPU and the bus it owns, run instruction by
//! instruction with the timer, the pixel pipeline and the interrupts kept in
//! step.
use vstd::prelude::*;
use crate::cartridge::{CartView, CartridgeError};
use crate::cpu::{add16_wrap, after_delay, pushed, CpuError, CPU};
use crate::semantics::{cycles_of, read_effect, register_effect, stack_write_effect, write_effect};
use crate::mmu::MMU;
use crate::joypad::JoyPad;
use crate::gpu::GPU;

verus! {

/// Master cycles in one 60 Hz frame: the most one `tick` runs.
pub const CYCLES_PER_FRAME: u32 = 69905;

pub struct Emulator {
    pub cpu: CPU,
    pub mmu: MMU,
}

impl Emulator {
    pub open spec fn wf(&self) -> bool {
        self.cpu.wf() && self.mmu.wf()
    }

    /// The bus after the timer ran `cycles` cycles, its overflow request in IF.
    pub open spec fn timed(m: MMU, cycles: u16) -> MMU {
        MMU {
            rtc: m.rtc.advanced(cycles),
            interrupt_flag: if m.rtc.overflow_in(cycles) { m.interrupt_flag | 4 } else { m.interrupt_flag },
            ..m
        }
    }

    /// One `update` that spent `c` cycles and ended in `next`, through some
    /// intermediate states.
    pub open spec fn update_done(self, next: Emulator, c: u16) -> bool {
        exists|w: (CPU, MMU, u16, GPU, u8)| #[trigger] self.updated_through(w, next, c)
    }

    /// One `update` that spent `c` cycles, through the states `w`: the
    /// registers and bus after the instruction and its cost, then the pixel
    /// pipeline after running as long (once the timer has) and the request
    /// bits it raised; interrupt service follows and ends in `next`.
    pub open spec fn updated_through(self, w: (CPU, MMU, u16, GPU, u8), next: Emulator, c: u16) -> bool {
        let (cpu1, m1, cost, gpu2, bits) = w;
        let timed = Emulator::timed(m1, cost);
        let drawn = MMU { gpu: gpu2, interrupt_flag: timed.interrupt_flag | bits, ..timed };
        &&& self.cpu.stepped(self.mmu, cpu1, m1, Ok::<u16, CpuError>(cost))
        &&& timed.gpu.updated(cost, gpu2, bits)
        &&& cost <= c
        &&& cpu1.serviced(drawn, next.cpu, next.mmu, (c - cost) as u16)
    }

    /// `next` is reached from `self` by whole updates that spent `n` cycles
    /// in all.
    pub open spec fn runs(self, next: Emulator, n: int) -> bool
        decreases n,
    {
        if n <= 0 {
            n == 0 && next == self
        } else {
            exists|mid: Emulator, c: u16| 4 <= c <= n && #[trigger] mid.update_done(next, c) && self.runs(mid, n - c)
        }
    }

    /// `self` came from `prev` by one update of `c` cycles.
    pub open spec fn update_done_from(self, prev: Emulator, c: u16) -> bool {
        prev.update_done(self, c)
    }

    /// A run from `self` that ended in `next` with the fault `r`: whole
    /// updates spending fewer than `limit` cycles, then a step that failed.
    pub open spec fn stopped(self, next: Emulator, limit: int, r: Result<u32, CpuError>) -> bool {
        exists|mid: Emulator, k: int|
            #[trigger] self.runs(mid, k) && 0 <= k < limit && mid.cpu.stepped(
                mid.mmu,
                next.cpu,
                next.mmu,
                match r {
                    Ok(n) => Ok::<u16, CpuError>(n as u16),
                    Err(e) => Err::<u16, CpuError>(e),
                },
            )
    }

    /// The machine at power-on, without a cartridge.
    pub fn new() -> (r: Emulator)
        ensures
            r.wf(),
            r.cpu == CPU::new_spec(),
            r.mmu.cartrige is None,
            r.mmu.interrupt_flag == 0xE1,
            r.mmu.interrupt_enable == 0,
    {
        Emulator { cpu: CPU::new(), mmu: MMU::new() }
    }

    /// Inserts the cartridge that a ROM image describes. A ROM that does not
    /// decode leaves the machine as it was and says why.
    pub fn load_rom(&mut self, rom: Vec<u8>) -> (r: Result<(), CartridgeError>)
        requires
            old(self).wf(),
        ensures
            final(self).wf(),
            r is Err ==> *final(self) == *old(self),
            r is Ok ==> (final(self).mmu.cartrige matches Some(c) && c.rom@ == rom@),
            r is Ok ==> final(self).cpu == old(self).cpu,
            r is Ok <==> crate::cartridge::decodes(rom@),
    {
        self.mmu.load_rom(rom)
    }

    /// The battery-backed cartridge RAM, if a cartridge is in.
    pub fn serialize_battery(&self) -> (r: Option<Vec<u8>>)
        ensures
            self.mmu.cartrige is None ==> r is None,
            self.mmu.cartrige matches Some(c) ==> (r matches Some(v) && v@ == c.ram@),
    {
        match &self.mmu.cartrige {
            Some(c) => Some(c.serialize()),
            None => None,
        }
    }

    /// Restores battery-backed RAM; returns false, changing nothing, when no
    /// cartridge is in or the length differs from its RAM's.
    pub fn load_battery(&mut self, data: Vec<u8>) -> (r: bool)
        requires
            old(self).wf(),
        ensures
            final(self).wf(),
            !r ==> *final(self) == *old(self),
            r == (old(self).mmu.cartrige matches Some(c) && data@.len() == c.ram@.len()),
            r ==> final(self).cpu == old(self).cpu,
            r ==> final(self).mmu == (MMU { cartrige: final(self).mmu.cartrige, ..old(self).mmu }),
            r ==> (final(self).mmu.cartrige matches Some(n) && old(self).mmu.cartrige matches Some(c)
                && n@ == (CartView { ram: data@, ..c@ })),
    {
        match &mut self.mmu.cartrige {
            Some(c) => c.deserialize(data),
            None => false,
        }
    }

    /// Reads the bus.
    pub fn read_memory(&self, address: u16) -> (r: u8)
        requires
            self.wf(),
        ensures
            r == self.mmu.read_spec(address),
    {
        self.mmu.read(address)
    }

    /// Writes the bus.
    pub fn write_memory(&mut self, address: u16, data: u8)
        requires
            old(self).wf(),
        ensures
            final(self).wf(),
            final(self).cpu == old(self).cpu,
            old(self).mmu.write_ok(address, data, final(self).mmu),
    {
        self.mmu.write(address, data);
    }

    /// Pushes a word on the stack.
    pub fn push_stack(&mut self, data: u16)
        requires
            old(self).wf(),
        ensures
            final(self).wf(),
            final(self).cpu == (CPU { sp: crate::cpu::add16_wrap(old(self).cpu.sp, -2), ..old(self).cpu }),
            pushed(old(self).mmu, old(self).cpu.sp, data, final(self).mmu),
    {
        self.cpu.push_stack(&mut self.mmu, data);
    }

    /// Pops a word from the stack.
    pub fn pop_stack(&mut self) -> (r: u16)
        requires
            old(self).wf(),
        ensures
            final(self).wf(),
            final(self).mmu == old(self).mmu,
            r == crate::bits::word_of(
                old(self).mmu.read_spec(crate::cpu::add16_wrap(old(self).cpu.sp, 1)),
                old(self).mmu.read_spec(old(self).cpu.sp),
            ),
            final(self).cpu == (CPU { sp: crate::cpu::add16_wrap(old(self).cpu.sp, 2), ..old(self).cpu }),
    {
        self.cpu.pop_stack(&self.mmu)
    }

    /// Runs an already fetched opcode.
    pub fn execute(&mut self, opcode: u8) -> (r: Result<u16, CpuError>)
        requires
            old(self).wf(),
        ensures
            final(self).wf(),
            r is Err <==> crate::cpu::is_invalid_opcode(opcode),
            r matches Ok(c) ==> crate::cpu::is_cycle_cost(c),
            r matches Ok(c) ==> c == cycles_of(old(self).cpu, old(self).mmu, opcode),
            r is Err ==> *final(self) == *old(self),
            register_effect(old(self).cpu, opcode) matches Some(n) ==> final(self).cpu == n && final(self).mmu == old(self).mmu,
            read_effect(old(self).cpu, old(self).mmu, opcode) matches Some(n) ==> final(self).cpu == n
                && final(self).mmu == old(self).mmu,
            write_effect(old(self).cpu, old(self).mmu, opcode) matches Some(e) ==> final(self).cpu == e.0
                && old(self).mmu.write_ok(e.1, e.2, final(self).mmu),
            stack_write_effect(old(self).cpu, old(self).mmu, opcode) matches Some(e) ==> final(self).cpu == e.0
                && pushed(old(self).mmu, old(self).cpu.sp, e.1, final(self).mmu),
    {
        self.cpu.execute(&mut self.mmu, opcode)
    }

    /// Fetches and runs one instruction (or idles 4 cycles while halted).
    pub fn execute_next_opcode(&mut self) -> (r: Result<u16, CpuError>)
        requires
            old(self).wf(),
        ensures
            final(self).wf(),
            r matches Ok(c) ==> crate::cpu::is_cycle_cost(c),
            old(self).cpu.stepped(old(self).mmu, final(self).cpu, final(self).mmu, r),
    {
        self.cpu.execute_next_opcode(&mut self.mmu)
    }

    /// Sets IF bit `id`.
    pub fn request_interrupt(&mut self, id: u8)
        requires
            old(self).wf(),
            id < 5,
        ensures
            final(self).wf(),
            final(self).cpu == old(self).cpu,
            final(self).mmu == (MMU { interrupt_flag: old(self).mmu.interrupt_flag | (1u8 << id), ..old(self).mmu }),
    {
        self.cpu.request_interrupt(&mut self.mmu, id);
    }

    /// Advances the timer; a TIMA overflow requests the timer interrupt.
    pub fn update_timers(&mut self, cycles: u16)
        requires
            old(self).wf(),
        ensures
            final(self).wf(),
            final(self).cpu == old(self).cpu,
            final(self).mmu.rtc == old(self).mmu.rtc.advanced(cycles),
            final(self).mmu.interrupt_flag == (if old(self).mmu.rtc.overflow_in(cycles) {
                old(self).mmu.interrupt_flag | 4
            } else {
                old(self).mmu.interrupt_flag
            }),
            final(self).mmu == (MMU { rtc: final(self).mmu.rtc, interrupt_flag: final(self).mmu.interrupt_flag, ..old(self).mmu }),
    {
        if self.mmu.rtc.update_timers(cycles) {
            self.mmu.interrupt_flag = self.mmu.interrupt_flag | 4;
        }
    }

    /// Advances the pixel pipeline; the VBLANK and LCD STAT requests it
    /// raises go to IF bits 0 and 1.
    pub fn update_graphics(&mut self, cycles: u16) -> (r: u8)
        requires
            old(self).wf(),
        ensures
            final(self).wf(),
            final(self).cpu == old(self).cpu,
            r < 4,
            old(self).mmu.gpu.updated(cycles, final(self).mmu.gpu, r),
            final(self).mmu.interrupt_flag == old(self).mmu.interrupt_flag | r,
            final(self).mmu == (MMU { gpu: final(self).mmu.gpu, interrupt_flag: final(self).mmu.interrupt_flag, ..old(self).mmu }),
    {
        let bits = self.mmu.gpu.update_graphics(cycles);
        self.mmu.interrupt_flag = self.mmu.interrupt_flag | bits;
        bits
    }

    /// Services a pending interrupt when IME allows it; returns its cycles.
    pub fn do_interrupts(&mut self) -> (r: u16)
        requires
            old(self).wf(),
        ensures
            final(self).wf(),
            r == 0 || r == 20,
            old(self).cpu.serviced(old(self).mmu, final(self).cpu, final(self).mmu, r),
    {
        self.cpu.do_interrupts(&mut self.mmu)
    }

    /// One instruction and everything it drives, in order: the instruction
    /// (with the EI/DI delay), the timer, the pixel pipeline, then interrupt
    /// service. Returns the cycles spent, service included.
    pub fn update(&mut self) -> (r: Result<u16, CpuError>)
        requires
            old(self).wf(),
        ensures
            final(self).wf(),
            r matches Ok(c) ==> 4 <= c <= 52 && (crate::cpu::is_cycle_cost(c) || crate::cpu::is_cycle_cost((c - 20) as u16)),
            r is Err ==> old(self).cpu.stepped(old(self).mmu, final(self).cpu, final(self).mmu, r),
            r matches Ok(c) ==> old(self).update_done(*final(self), c),
    {
        let cycles = match self.execute_next_opcode() {
            Ok(c) => c,
            Err(e) => return Err(e),
        };
        let ghost stepped = *self;
        self.update_timers(cycles);
        let bits = self.update_graphics(cycles);
        let ghost drawn = *self;
        let service = self.do_interrupts();
        let total = cycles + service;
        let ghost w = (stepped.cpu, stepped.mmu, cycles, drawn.mmu.gpu, bits);
        assert(old(self).updated_through(w, *self, total));
        assert(old(self).update_done(*self, total));
        Ok(total)
    }

    /// Runs whole instructions until `budget` master cycles, clamped to one
    /// frame, are spent; returns the cycles actually run, or the fault that
    /// stopped the machine.
    pub fn tick(&mut self, budget: u32) -> (r: Result<u32, CpuError>)
        requires
            old(self).wf(),
        ensures
            final(self).wf(),
            r matches Ok(n) ==> {
                let limit = if budget > CYCLES_PER_FRAME { CYCLES_PER_FRAME } else { budget };
                &&& limit <= n < limit + 52
                &&& old(self).runs(*final(self), n as int)
            },
            r is Err ==> old(self).stopped(
                *final(self),
                (if budget > CYCLES_PER_FRAME { CYCLES_PER_FRAME } else { budget }) as int,
                r,
            ),
    {
        let limit = if budget > CYCLES_PER_FRAME { CYCLES_PER_FRAME } else { budget };
        let mut ran: u32 = 0;
        while ran < limit
            invariant
                self.wf(),
                limit == (if budget > CYCLES_PER_FRAME { CYCLES_PER_FRAME } else { budget }),
                ran < limit + 52,
                old(self).runs(*self, ran as int),
            decreases limit + 52 - ran,
        {
            let ghost before = *self;
            match self.update() {
                Ok(c) => {
                    assert(old(self).runs(*self, ran + c)) by {
                        assert(self.update_done_from(before, c));
                    }
                    ran = ran + c as u32;
                },
                Err(e) => {
                    assert(old(self).runs(before, ran as int) && ran < limit);
                    assert(old(self).stopped(*self, limit as int, Err::<u32, CpuError>(e)));
                    return Err(e);
                },
            }
        }
        Ok(ran)
    }

    /// A key goes down; the joypad interrupt is requested when it was up and
    /// its row is selected.
    pub fn on_key_pressed(&mut self, key: u8)
        requires
            old(self).wf(),
            key < 8,
        ensures
            final(self).wf(),
            final(self).cpu == old(self).cpu,
            final(self).mmu.joypad.joypad_state == old(self).mmu.joypad.joypad_state & !(1u8 << key),
            final(self).mmu.interrupt_flag == (if crate::bits::bit_of(old(self).mmu.joypad.joypad_state, key)
                && crate::joypad::row_selected(old(self).mmu.joypad.input, key) {
                old(self).mmu.interrupt_flag | 16
            } else {
                old(self).mmu.interrupt_flag
            }),
            final(self).mmu == (MMU { joypad: final(self).mmu.joypad, interrupt_flag: final(self).mmu.interrupt_flag, ..old(self).mmu }),
            final(self).mmu.joypad.input == old(self).mmu.joypad.input,
    {
        if self.mmu.joypad.on_key_pressed(key) {
            self.mmu.interrupt_flag = self.mmu.interrupt_flag | 16;
        }
    }

    /// A key goes up.
    pub fn on_key_released(&mut self, key: u8)
        requires
            old(self).wf(),
            key < 8,
        ensures
            final(self).wf(),
            final(self).cpu == old(self).cpu,
            final(self).mmu == (MMU { joypad: final(self).mmu.joypad, ..old(self).mmu }),
            final(self).mmu.joypad == (JoyPad { joypad_state: old(self).mmu.joypad.joypad_state | (1u8 << key), ..old(self).mmu.joypad }),
    {
        self.mmu.joypad.on_key_released(key);
    }

    /// The byte a read of 0xFF00 returns.
    pub fn get_joypad_state(&self) -> (r: u8)
        ensures
            r == crate::joypad::joypad_byte(self.mmu.joypad.joypad_state, self.mmu.joypad.input),
    {
        self.mmu.joypad.get_joypad_state()
    }

    /// Copies page `data` into OAM, as a write to 0xFF46 does.
    pub fn dma_transfer(&mut self, data: u8)
        requires
            old(self).wf(),
        ensures
            final(self).wf(),
            final(self).cpu == old(self).cpu,
            old(self).mmu.write_ok(crate::mmu::DMA, data, final(self).mmu),
    {
        self.mmu.dma_transfer(data);
    }

    /// Hands over the bytes written to the serial port since the last call.
    pub fn take_serial_output(&mut self) -> (r: Vec<u8>)
        requires
            old(self).wf(),
        ensures
            final(self).wf(),
            r@ == old(self).mmu.serial_out@,
            final(self).mmu.serial_out@.len() == 0,
            final(self).cpu == old(self).cpu,
    {
        let out = self.mmu.serial_out.clone();
        self.mmu.serial_out = Vec::new();
        out
    }
}

} // verus!
