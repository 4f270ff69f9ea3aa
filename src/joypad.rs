//! The joypad latch at 0xFF00.
use vstd::prelude::*;
use crate::bits::bit_of;
use crate::cartridge::Cartridge;

verus! {

pub const JOYPAD: usize = 0xFF00;

pub const KEY_RIGHT: u8 = 0;
pub const KEY_LEFT: u8 = 1;
pub const KEY_UP: u8 = 2;
pub const KEY_DOWN: u8 = 3;
pub const KEY_A: u8 = 4;
pub const KEY_B: u8 = 5;
pub const KEY_SELECT: u8 = 6;
pub const KEY_START: u8 = 7;

/// `joypad_state` holds one bit per key (1 = released): directions in bits
/// 0-3, buttons in bits 4-7. `input` is the last byte written to 0xFF00,
/// whose bits 4 and 5, when zero, select the directions and the buttons.
pub struct JoyPad {
    pub joypad_state: u8,
    pub input: u8,
}

/// What a read of 0xFF00 returns: the selection bits as written, and below
/// them the selected keys, a pressed key reading as 0.
pub open spec fn joypad_byte(state: u8, input: u8) -> u8 {
    let directions = if !bit_of(input, 4) { state & 0x0F } else { 0x0Fu8 };
    let buttons = if !bit_of(input, 5) { state >> 4u8 } else { 0x0Fu8 };
    (input & 0xF0) | (directions & buttons)
}

/// Whether the row of `key` is selected by `input`.
pub open spec fn row_selected(input: u8, key: u8) -> bool {
    if key <= 3 { !bit_of(input, 4) } else { !bit_of(input, 5) }
}

impl JoyPad {
    /// All keys released, no row selected.
    pub fn new() -> (r: JoyPad)
        ensures
            r == (JoyPad { joypad_state: 0xFF, input: 0x30 }),
    {
        JoyPad { joypad_state: 0xFF, input: 0x30 }
    }

    /// Presses `key`; returns whether the joypad interrupt is due: the key
    /// went from released to pressed and its row is selected.
    pub fn on_key_pressed(&mut self, key: u8) -> (interrupt: bool)
        requires
            key < 8,
        ensures
            final(self).joypad_state == old(self).joypad_state & !(1u8 << key),
            final(self).input == old(self).input,
            interrupt == (bit_of(old(self).joypad_state, key) && row_selected(old(self).input, key)),
    {
        let was_released = (self.joypad_state >> key) & 1 == 1;
        self.joypad_state = self.joypad_state & !(1u8 << key);
        let selected = if key <= 3 {
            (self.input >> 4u8) & 1 != 1
        } else {
            (self.input >> 5u8) & 1 != 1
        };
        was_released && selected
    }

    /// Releases `key`.
    pub fn on_key_released(&mut self, key: u8)
        requires
            key < 8,
        ensures
            final(self).joypad_state == old(self).joypad_state | (1u8 << key),
            final(self).input == old(self).input,
    {
        self.joypad_state = self.joypad_state | (1u8 << key);
    }

    /// The byte that a read of 0xFF00 returns.
    pub fn get_joypad_state(&self) -> (r: u8)
        ensures
            r == joypad_byte(self.joypad_state, self.input),
    {
        let directions = if (self.input >> 4u8) & 1 != 1 { self.joypad_state & 0x0F } else { 0x0F };
        let buttons = if (self.input >> 5u8) & 1 != 1 { self.joypad_state >> 4u8 } else { 0x0F };
        (self.input & 0xF0) | (directions & buttons)
    }
}

impl Cartridge for JoyPad {
    open spec fn wf(&self) -> bool {
        true
    }

    open spec fn maps(address: usize) -> bool {
        address == JOYPAD
    }

    open spec fn read_spec(&self, address: usize) -> u8 {
        joypad_byte(self.joypad_state, self.input)
    }

    open spec fn write_spec(&self, address: usize, data: u8, next: JoyPad) -> bool {
        next == (JoyPad { input: data, ..*self })
    }

    fn read(&self, address: usize) -> (r: u8) {
        self.get_joypad_state()
    }

    fn write(&mut self, address: usize, data: u8) {
        self.input = data;
    }
}

} // verus!
