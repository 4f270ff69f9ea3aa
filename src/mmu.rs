//! The memory bus: address decoding over the cartridge, VRAM, work RAM, OAM,
//! I/O registers, high RAM and the interrupt registers.
use vstd::prelude::*;
use crate::cartridge::{Cart, CartridgeError, Cartridge, MbcKind};
use crate::gpu::GPU;
use crate::joypad::JoyPad;
use crate::rtc::RTC;

verus! {

pub const INTERRUPT_FLAG: u16 = 0xFF0F;
pub const INTERRUPT_ENABLE: u16 = 0xFFFF;
pub const DMA: u16 = 0xFF46;
pub const SERIAL_DATA: u16 = 0xFF01;
pub const SERIAL_CONTROL: u16 = 0xFF02;
pub const WRAM_SIZE: usize = 0x2000;
pub const HRAM_SIZE: usize = 0x7F;
pub const IO_SIZE: usize = 0x80;

/// The bus and every device on it. `serial_out` gathers the bytes written
/// to the serial data register, for the host to take.
pub struct MMU {
    pub cartrige: Option<Cart>,
    pub gpu: GPU,
    pub rtc: RTC,
    pub joypad: JoyPad,
    pub wram: Vec<u8>,
    pub hram: Vec<u8>,
    pub interrupt_enable: u8,
    pub interrupt_flag: u8,
    pub io_backup: Vec<u8>,
    pub dma: u8,
    pub serial_out: Vec<u8>,
}

/// The serial registers, the only I/O bytes without a device of their own
/// that the bus stores; the other unowned I/O addresses read 0xFF.
pub open spec fn is_serial_address(address: u16) -> bool {
    address == SERIAL_DATA || address == SERIAL_CONTROL
}

pub open spec fn is_cart_address(address: u16) -> bool {
    address <= 0x7FFF || (0xA000 <= address <= 0xBFFF)
}

impl MMU {
    pub open spec fn wf(&self) -> bool {
        &&& (self.cartrige matches Some(c) ==> c@.wf())
        &&& self.gpu.inv()
        &&& self.rtc.inv()
        &&& self.wram@.len() == WRAM_SIZE
        &&& self.hram@.len() == HRAM_SIZE
        &&& self.io_backup@.len() == IO_SIZE
    }

    /// What a read of `address` returns.
    #[verifier::opaque]
    pub open spec fn read_spec(&self, address: u16) -> u8 {
        if is_cart_address(address) {
            match self.cartrige {
                Some(c) => c@.read(address as usize),
                None => 0xFF,
            }
        } else if 0x8000 <= address <= 0x9FFF || (0xFE00 <= address <= 0xFE9F) {
            self.gpu.read_spec(address as usize)
        } else if 0xC000 <= address <= 0xDFFF {
            self.wram@[address - 0xC000]
        } else if 0xE000 <= address <= 0xFDFF {
            self.wram@[address - 0xE000]
        } else if 0xFEA0 <= address <= 0xFEFF {
            0x00
        } else if address == 0xFF00 {
            self.joypad.read_spec(address as usize)
        } else if 0xFF04 <= address <= 0xFF07 {
            self.rtc.read_spec(address as usize)
        } else if address == INTERRUPT_FLAG {
            self.interrupt_flag
        } else if address == DMA {
            self.dma
        } else if 0xFF40 <= address <= 0xFF4B {
            self.gpu.read_spec(address as usize)
        } else if 0xFF80 <= address <= 0xFFFE {
            self.hram@[address - 0xFF80]
        } else if address == INTERRUPT_ENABLE {
            self.interrupt_enable
        } else if is_serial_address(address) {
            self.io_backup@[address - 0xFF00]
        } else {
            0xFF
        }
    }

    /// The OAM contents that a DMA from page `page` copies.
    pub open spec fn dma_source(&self, page: u8) -> Seq<u8> {
        Seq::new(0xA0, |i: int| self.read_spec((page * 256 + i) as u16))
    }

    /// Sprites decoded from every entry of an OAM image.
    pub open spec fn sprites_of(oam: Seq<u8>) -> Seq<crate::gpu::Sprite> {
        Seq::new(40, |k: int| crate::gpu::sprite_of(oam[4 * k], oam[4 * k + 1], oam[4 * k + 2], oam[4 * k + 3]))
    }

    /// `next` is the bus after `value` was written at `address`.
    pub open spec fn write_ok(&self, address: u16, value: u8, next: MMU) -> bool {
        if is_cart_address(address) {
            &&& next == (MMU { cartrige: next.cartrige, ..*self })
            &&& match self.cartrige {
                Some(c) => next.cartrige matches Some(n) && c.write_spec(address as usize, value, n),
                None => next.cartrige is None,
            }
        } else if 0x8000 <= address <= 0x9FFF || (0xFE00 <= address <= 0xFE9F) {
            next == (MMU { gpu: next.gpu, ..*self }) && self.gpu.write_spec(address as usize, value, next.gpu)
        } else if 0xC000 <= address <= 0xDFFF {
            next == (MMU { wram: next.wram, ..*self }) && next.wram@ == self.wram@.update(address - 0xC000, value)
        } else if 0xE000 <= address <= 0xFDFF {
            next == (MMU { wram: next.wram, ..*self }) && next.wram@ == self.wram@.update(address - 0xE000, value)
        } else if 0xFEA0 <= address <= 0xFEFF {
            next == *self
        } else if address == 0xFF00 {
            next == (MMU { joypad: next.joypad, ..*self }) && self.joypad.write_spec(address as usize, value, next.joypad)
        } else if 0xFF04 <= address <= 0xFF07 {
            next == (MMU { rtc: self.rtc.after_write(address as usize, value), ..*self })
        } else if address == INTERRUPT_FLAG {
            next == (MMU { interrupt_flag: value, ..*self })
        } else if address == DMA {
            &&& next == (MMU { dma: value, gpu: next.gpu, ..*self })
            &&& next.gpu.oam@ == self.dma_source(value)
            &&& next.gpu.sprites@ == MMU::sprites_of(next.gpu.oam@)
            &&& next.gpu == (GPU { oam: next.gpu.oam, sprites: next.gpu.sprites, ..self.gpu })
        } else if 0xFF40 <= address <= 0xFF4B {
            next == (MMU { gpu: next.gpu, ..*self }) && self.gpu.write_spec(address as usize, value, next.gpu)
        } else if 0xFF80 <= address <= 0xFFFE {
            next == (MMU { hram: next.hram, ..*self }) && next.hram@ == self.hram@.update(address - 0xFF80, value)
        } else if address == INTERRUPT_ENABLE {
            next == (MMU { interrupt_enable: value, ..*self })
        } else if address == SERIAL_DATA {
            &&& next == (MMU { io_backup: next.io_backup, serial_out: next.serial_out, ..*self })
            &&& next.io_backup@ == self.io_backup@.update(address - 0xFF00, value)
            &&& next.serial_out@ == self.serial_out@.push(value)
        } else if is_serial_address(address) {
            next == (MMU { io_backup: next.io_backup, ..*self }) && next.io_backup@ == self.io_backup@.update(
                address - 0xFF00,
                value,
            )
        } else {
            next == *self
        }
    }

    /// The bus at power-on, without a cartridge: I/O registers hold their
    /// post-boot values, IF reads 0xE1 and IE 0.
    pub fn new() -> (r: MMU)
        ensures
            r.wf(),
            r.cartrige is None,
            r.interrupt_flag == 0xE1,
            r.interrupt_enable == 0,
            r.dma == 0xFF,
            r.gpu.ly == 0,
            r.gpu.mode_spec() == crate::gpu::MODE_OAM,
            r.rtc == RTC::new_spec(),
            r.joypad == (JoyPad { joypad_state: 0xFF, input: 0x30 }),
            r.wram@ == Seq::new(WRAM_SIZE as nat, |i: int| 0u8),
            r.hram@ == Seq::new(HRAM_SIZE as nat, |i: int| 0u8),
            r.serial_out@.len() == 0,
    {
        let io_backup = crate::cartridge::zeroed(IO_SIZE);
        MMU {
            cartrige: None,
            gpu: GPU::new(),
            rtc: RTC::new(),
            joypad: JoyPad::new(),
            wram: crate::cartridge::zeroed(WRAM_SIZE),
            hram: crate::cartridge::zeroed(HRAM_SIZE),
            interrupt_enable: 0x00,
            interrupt_flag: 0xE1,
            io_backup,
            dma: 0xFF,
            serial_out: Vec::new(),
        }
    }

    /// Inserts the cartridge of a ROM image; an image that does not decode
    /// changes nothing and says why.
    pub fn load_rom(&mut self, rom: Vec<u8>) -> (r: Result<(), CartridgeError>)
        requires
            old(self).wf(),
        ensures
            final(self).wf(),
            r is Ok <==> crate::cartridge::decodes(rom@),
            r is Err ==> *final(self) == *old(self),
            r is Ok ==> (final(self).cartrige matches Some(c) && c.rom@ == rom@),
            r is Ok ==> *final(self) == (MMU { cartrige: final(self).cartrige, ..*old(self) }),
    {
        match crate::cartridge::load_rom(rom) {
            Ok(c) => {
                self.cartrige = Some(c);
                Ok(())
            },
            Err(e) => Err(e),
        }
    }

    /// Reads the byte at `address`.
    pub fn read(&self, address: u16) -> (r: u8)
        requires
            self.wf(),
        ensures
            r == self.read_spec(address),
    {
        reveal(MMU::read_spec);
        if address <= 0x7FFF || (0xA000 <= address && address <= 0xBFFF) {
            match &self.cartrige {
                Some(c) => c.read(address as usize),
                None => 0xFF,
            }
        } else if (0x8000 <= address && address <= 0x9FFF) || (0xFE00 <= address && address <= 0xFE9F) {
            self.gpu.read(address as usize)
        } else if 0xC000 <= address && address <= 0xDFFF {
            self.wram[(address - 0xC000) as usize]
        } else if 0xE000 <= address && address <= 0xFDFF {
            self.wram[(address - 0xE000) as usize]
        } else if 0xFEA0 <= address && address <= 0xFEFF {
            0x00
        } else if address == 0xFF00 {
            self.joypad.read(address as usize)
        } else if 0xFF04 <= address && address <= 0xFF07 {
            self.rtc.read(address as usize)
        } else if address == INTERRUPT_FLAG {
            self.interrupt_flag
        } else if address == DMA {
            self.dma
        } else if 0xFF40 <= address && address <= 0xFF4B {
            self.gpu.read(address as usize)
        } else if 0xFF80 <= address && address <= 0xFFFE {
            self.hram[(address - 0xFF80) as usize]
        } else if address == INTERRUPT_ENABLE {
            self.interrupt_enable
        } else if address == SERIAL_DATA || address == SERIAL_CONTROL {
            self.io_backup[(address - 0xFF00) as usize]
        } else {
            0xFF
        }
    }

    /// Writes `value` at `address`.
    pub fn write(&mut self, address: u16, value: u8)
        requires
            old(self).wf(),
        ensures
            final(self).wf(),
            old(self).write_ok(address, value, *final(self)),
    {
        if address <= 0x7FFF || (0xA000 <= address && address <= 0xBFFF) {
            match &mut self.cartrige {
                Some(c) => c.write(address as usize, value),
                None => {},
            }
        } else if (0x8000 <= address && address <= 0x9FFF) || (0xFE00 <= address && address <= 0xFE9F) {
            self.gpu.write(address as usize, value);
        } else if 0xC000 <= address && address <= 0xDFFF {
            self.wram.set((address - 0xC000) as usize, value);
        } else if 0xE000 <= address && address <= 0xFDFF {
            self.wram.set((address - 0xE000) as usize, value);
        } else if 0xFEA0 <= address && address <= 0xFEFF {
        } else if address == 0xFF00 {
            self.joypad.write(address as usize, value);
        } else if 0xFF04 <= address && address <= 0xFF07 {
            self.rtc.write(address as usize, value);
        } else if address == INTERRUPT_FLAG {
            self.interrupt_flag = value;
        } else if address == DMA {
            self.dma_transfer(value);
        } else if 0xFF40 <= address && address <= 0xFF4B {
            self.gpu.write(address as usize, value);
        } else if 0xFF80 <= address && address <= 0xFFFE {
            self.hram.set((address - 0xFF80) as usize, value);
        } else if address == INTERRUPT_ENABLE {
            self.interrupt_enable = value;
        } else if address == SERIAL_DATA || address == SERIAL_CONTROL {
            if address == SERIAL_DATA {
                self.serial_out.push(value);
            }
            self.io_backup.set((address - 0xFF00) as usize, value);
        }
    }

    /// Copies the 160 bytes of page `data` into OAM and remembers `data`
    /// as the value of the DMA register.
    pub fn dma_transfer(&mut self, data: u8)
        requires
            old(self).wf(),
        ensures
            final(self).wf(),
            old(self).write_ok(DMA, data, *final(self)),
    {
        reveal(MMU::read_spec);
        let ghost src = self.dma_source(data);
        let base: u16 = (data as u16) * 256;
        let mut i: u16 = 0;
        while i < 0xA0
            invariant
                old(self).wf(),
                self.wf(),
                base == data * 256,
                src == old(self).dma_source(data),
                i <= 0xA0,
                *self == (MMU { gpu: self.gpu, ..*old(self) }),
                self.gpu == (GPU { oam: self.gpu.oam, sprites: self.gpu.sprites, ..old(self).gpu }),
                forall|j: int| 0 <= j < i ==> #[trigger] self.gpu.oam@[j] == src[j],
                forall|j: int| i <= j < 0xA0 ==> #[trigger] self.gpu.oam@[j] == old(self).gpu.oam@[j],
                forall|k: int| 0 <= k < 40 && 4 * k + 4 <= i ==> #[trigger] self.gpu.sprites@[k]
                    == crate::gpu::sprite_of(
                        self.gpu.oam@[4 * k],
                        self.gpu.oam@[4 * k + 1],
                        self.gpu.oam@[4 * k + 2],
                        self.gpu.oam@[4 * k + 3],
                    ),
            decreases 0xA0 - i,
        {
            let value = self.read(base.wrapping_add(i));
            proof { reveal(MMU::read_spec); }
            assert(value == src[i as int]) by {
                let a = (data * 256 + i) as u16;
                assert(base.wrapping_add(i) == a);
            }
            self.gpu.write(0xFE00 + i as usize, value);
            i = i + 1;
        }
        self.dma = data;
        assert(self.gpu.oam@ =~= src);
        assert(self.gpu.sprites@ =~= MMU::sprites_of(self.gpu.oam@));
    }
}

/// Writing back the byte just read leaves that address reading the same,
/// for every address but the joypad (0xFF00), DIV (0xFF04) and LY (0xFF44),
/// whose writes select, or reset, rather than store, and but the MBC1
/// register at 0x4000-0x5FFF, which moves the ROM window the address shows.
pub proof fn lemma_write_back_is_no_op(m: MMU, address: u16, next: MMU)
    requires
        m.wf(),
        address != 0xFF00,
        address != 0xFF04,
        address != 0xFF44,
        !(0x4000 <= address <= 0x5FFF && (m.cartrige matches Some(c) && c.kind == MbcKind::Mbc1)),
        m.write_ok(address, m.read_spec(address), next),
    ensures
        next.read_spec(address) == m.read_spec(address),
{
    reveal(MMU::read_spec);
    if 0xFF41 == address {
        crate::gpu::lemma_stat_write(m.gpu.lcd_status, m.gpu.lcd_status);
    }
    if 0xFF07 == address {
        assert(m.rtc.after_write(address as usize, m.rtc.tac) == m.rtc);
    }
}

/// DIV reads zero right after any write to it.
pub proof fn lemma_div_write_then_read(m: MMU, value: u8, next: MMU)
    requires
        m.wf(),
        m.write_ok(0xFF04, value, next),
    ensures
        next.read_spec(0xFF04) == 0,
{
    reveal(MMU::read_spec);    reveal(crate::bits::high_byte);
}

} // verus!
