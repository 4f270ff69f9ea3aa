//! Core of a Game Boy (DMG) emulator: CPU interpreter, memory bus with
//! cartridge controllers, pixel pipeline, timer, interrupt controller and
//! joypad latch, each with its behaviour stated as a contract.
pub mod bits;
pub mod flags;
pub mod alu;
pub mod cartridge;
pub mod rtc;
pub mod joypad;
pub mod gpu;
pub mod mmu;
pub mod cpu;
pub mod semantics;
pub mod emulator;
