//! The timer: DIV, TIMA, TMA and TAC.
use vstd::prelude::*;
use crate::bits::high_byte;
use crate::cartridge::Cartridge;

verus! {

pub const DIV: usize = 0xFF04;
pub const TIMA: usize = 0xFF05;
pub const TMA: usize = 0xFF06;
pub const TAC: usize = 0xFF07;

/// The timer's registers. `divider_counter` runs free; its high byte is DIV.
/// `timer_counter` gathers cycles towards the next TIMA increment.
pub struct RTC {
    pub timer_counter: u32,
    pub divider_counter: u16,
    pub tima: u8,
    pub tma: u8,
    pub tac: u8,
}

/// Master cycles per TIMA increment, selected by TAC bits 0-1.
pub open spec fn threshold(tac: u8) -> nat {
    if tac % 4 == 0 {
        1024
    } else if tac % 4 == 1 {
        16
    } else if tac % 4 == 2 {
        64
    } else {
        256
    }
}

/// Whether TAC bit 2 (timer enable) is set.
pub open spec fn timer_enabled(tac: u8) -> bool {
    crate::bits::bit_of(tac, 2)
}

/// One TIMA increment: past 0xFF it reloads from TMA.
pub open spec fn tima_step(tima: u8, tma: u8) -> u8 {
    if tima == 0xFF { tma } else { (tima + 1) as u8 }
}

/// TIMA after `n` increments.
pub open spec fn tima_after(tima: u8, tma: u8, n: nat) -> u8
    decreases n,
{
    if n == 0 { tima } else { tima_step(tima_after(tima, tma, (n - 1) as nat), tma) }
}

/// Whether any of `n` increments overflowed.
pub open spec fn overflows_within(tima: u8, tma: u8, n: nat) -> bool
    decreases n,
{
    if n == 0 {
        false
    } else {
        overflows_within(tima, tma, (n - 1) as nat) || tima_after(tima, tma, (n - 1) as nat) == 0xFF
    }
}

pub open spec fn is_timer_address(address: usize) -> bool {
    DIV <= address <= TAC
}

impl RTC {
    pub open spec fn inv(&self) -> bool {
        self.timer_counter < threshold(self.tac)
    }

    pub open spec fn after_write(&self, address: usize, data: u8) -> RTC {
        if address == DIV {
            RTC { divider_counter: 0, timer_counter: 0, ..*self }
        } else if address == TIMA {
            RTC { tima: data, ..*self }
        } else if address == TMA {
            RTC { tma: data, ..*self }
        } else if data != self.tac {
            RTC { tac: data, timer_counter: 0, ..*self }
        } else {
            *self
        }
    }

    /// The timer after `cycles` master cycles.
    pub open spec fn advanced(&self, cycles: u16) -> RTC {
        let div = ((self.divider_counter + cycles) % 0x10000) as u16;
        if timer_enabled(self.tac) {
            let total = self.timer_counter + cycles;
            RTC {
                divider_counter: div,
                timer_counter: (total % threshold(self.tac) as int) as u32,
                tima: tima_after(self.tima, self.tma, (total / threshold(self.tac) as int) as nat),
                ..*self
            }
        } else {
            RTC { divider_counter: div, ..*self }
        }
    }

    /// Whether advancing by `cycles` overflows TIMA.
    pub open spec fn overflow_in(&self, cycles: u16) -> bool {
        timer_enabled(self.tac) && overflows_within(
            self.tima,
            self.tma,
            ((self.timer_counter + cycles) / threshold(self.tac) as int) as nat,
        )
    }

    /// The timer at power-on.
    pub open spec fn new_spec() -> RTC {
        RTC { timer_counter: 0, divider_counter: 0xAB00, tima: 0, tma: 0, tac: 0xF8 }
    }

    /// The timer at power-on.
    pub fn new() -> (r: RTC)
        ensures
            r == RTC::new_spec(),
            r.inv(),
    {
        RTC { timer_counter: 0, divider_counter: 0xAB00, tima: 0x00, tma: 0x00, tac: 0xF8 }
    }

    /// Master cycles per TIMA increment.
    pub fn get_clock_frequency(&self) -> (r: u32)
        ensures
            r == threshold(self.tac),
    {
        match self.tac % 4 {
            0 => 1024,
            1 => 16,
            2 => 64,
            _ => 256,
        }
    }

    /// Whether TIMA counts.
    pub fn clock_enabled(&self) -> (r: bool)
        ensures
            r == timer_enabled(self.tac),
    {
        (self.tac >> 2u8) & 1 == 1
    }

    /// Advances DIV and, when enabled, TIMA by `cycles` master cycles; returns
    /// whether TIMA overflowed (the timer interrupt is then due).
    pub fn update_timers(&mut self, cycles: u16) -> (overflow: bool)
        requires
            old(self).inv(),
        ensures
            *final(self) == old(self).advanced(cycles),
            overflow == old(self).overflow_in(cycles),
            final(self).inv(),
    {
        self.divider_counter = self.divider_counter.wrapping_add(cycles);
        let mut overflow = false;
        if self.clock_enabled() {
            let threshold = self.get_clock_frequency();
            let ghost total = self.timer_counter + cycles;
            let ghost tima0 = self.tima;
            self.timer_counter = self.timer_counter + cycles as u32;
            let mut steps: u32 = 0;
            while self.timer_counter >= threshold
                invariant
                    threshold == crate::rtc::threshold(self.tac),
                    self.timer_counter + steps * threshold == total,
                    self.tima == tima_after(tima0, self.tma, steps as nat),
                    overflow == overflows_within(tima0, self.tma, steps as nat),
                    total <= 0xFFFF + 1024,
                    self.tac == old(self).tac,
                    self.tma == old(self).tma,
                    self.divider_counter == ((old(self).divider_counter + cycles) % 0x10000) as u16,
                decreases self.timer_counter,
            {
                self.timer_counter = self.timer_counter - threshold;
                if self.tima == 0xFF {
                    self.tima = self.tma;
                    overflow = true;
                } else {
                    self.tima = self.tima + 1;
                }
                steps = steps + 1;
            }
            proof {
                vstd::arithmetic::div_mod::lemma_fundamental_div_mod_converse(
                    total,
                    threshold as int,
                    steps as int,
                    self.timer_counter as int,
                );
            }
        }
        overflow
    }
}

impl Cartridge for RTC {
    open spec fn wf(&self) -> bool {
        self.inv()
    }

    open spec fn maps(address: usize) -> bool {
        is_timer_address(address)
    }

    open spec fn read_spec(&self, address: usize) -> u8 {
        if address == DIV {
            high_byte(self.divider_counter)
        } else if address == TIMA {
            self.tima
        } else if address == TMA {
            self.tma
        } else {
            self.tac
        }
    }

    open spec fn write_spec(&self, address: usize, data: u8, next: RTC) -> bool {
        next == self.after_write(address, data)
    }

    fn read(&self, address: usize) -> (r: u8) {
        if address == DIV {
            proof { crate::bits::lemma_word_split(self.divider_counter); }
            (self.divider_counter >> 8u16) as u8
        } else if address == TIMA {
            self.tima
        } else if address == TMA {
            self.tma
        } else {
            self.tac
        }
    }

    fn write(&mut self, address: usize, data: u8) {
        if address == DIV {
            self.divider_counter = 0;
            self.timer_counter = 0;
        } else if address == TIMA {
            self.tima = data;
        } else if address == TMA {
            self.tma = data;
        } else {
            if data != self.tac {
                self.timer_counter = 0;
            }
            self.tac = data;
        }
    }
}

/// A write to DIV reads back as zero.
pub proof fn lemma_div_write_reads_zero(t: RTC, data: u8)
    ensures
        t.after_write(DIV, data).read_spec(DIV) == 0,
{    reveal(crate::bits::high_byte);
}

} // verus!
