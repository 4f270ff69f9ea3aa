//! Cartridges: header decoding and the bank controllers (none, MBC1, MBC2,
//! MBC3 and MBC5), modelled as one tagged type.
use vstd::prelude::*;

verus! {

pub const ROM_BANK_SIZE: usize = 0x4000;
pub const RAM_BANK_SIZE: usize = 0x2000;
pub const REGISTER_CARTRIDGE_TYPE: usize = 0x0147;
pub const REGISTER_ROM_SIZE: usize = 0x0148;
pub const REGISTER_RAM_SIZE: usize = 0x0149;
/// MBC2 carries 512 four-bit cells of its own.
pub const MBC2_RAM_SIZE: usize = 0x200;

/// A device on the bus: it answers reads and takes writes at its addresses.
pub trait Cartridge: Sized {
    spec fn wf(&self) -> bool;

    spec fn maps(address: usize) -> bool;

    spec fn read_spec(&self, address: usize) -> u8;

    /// `next` is the device after `data` was written at `address`.
    spec fn write_spec(&self, address: usize, data: u8, next: Self) -> bool;

    fn read(&self, address: usize) -> (r: u8)
        requires
            self.wf(),
            Self::maps(address),
        ensures
            r == self.read_spec(address),
    ;

    fn write(&mut self, address: usize, data: u8)
        requires
            old(self).wf(),
            Self::maps(address),
        ensures
            final(self).wf(),
            old(self).write_spec(address, data, *final(self)),
    ;
}

#[derive(PartialEq, Eq, Structural, Clone, Copy, Debug)]
pub enum MbcKind {
    NoMbc,
    Mbc1,
    Mbc2,
    Mbc3,
    Mbc5,
}

#[derive(PartialEq, Eq, Structural, Clone, Copy, Debug)]
pub enum CartridgeError {
    /// Header byte 0x147 names no supported controller.
    UnsupportedCartridge,
    /// The header is missing, names an unknown size, or disagrees with the length.
    MalformedRom,
}

/// The controller family selected by header byte 0x147.
pub open spec fn kind_of(code: u8) -> Option<MbcKind> {
    if code == 0x00 || code == 0x08 || code == 0x09 {
        Some(MbcKind::NoMbc)
    } else if 0x01 <= code <= 0x03 {
        Some(MbcKind::Mbc1)
    } else if code == 0x05 || code == 0x06 {
        Some(MbcKind::Mbc2)
    } else if 0x0F <= code <= 0x13 {
        Some(MbcKind::Mbc3)
    } else if 0x19 <= code <= 0x1E {
        Some(MbcKind::Mbc5)
    } else {
        None
    }
}

/// ROM length named by header byte 0x148: 32 KiB doubled `code` times.
pub open spec fn rom_size_of(code: u8) -> Option<nat> {
    if code <= 8 {
        Some(0x8000 * vstd::arithmetic::power2::pow2(code as nat))
    } else {
        None
    }
}

/// RAM length named by header byte 0x149.
pub open spec fn ram_size_of(code: u8) -> Option<nat> {
    if code == 0 {
        Some(0)
    } else if code == 2 {
        Some(0x2000)
    } else if code == 3 {
        Some(0x8000)
    } else if code == 4 {
        Some(0x20000)
    } else if code == 5 {
        Some(0x10000)
    } else {
        None
    }
}

proof fn lemma_pow2_table()
    ensures
        vstd::arithmetic::power2::pow2(0) == 1,
        vstd::arithmetic::power2::pow2(1) == 2,
        vstd::arithmetic::power2::pow2(2) == 4,
        vstd::arithmetic::power2::pow2(3) == 8,
        vstd::arithmetic::power2::pow2(4) == 16,
        vstd::arithmetic::power2::pow2(5) == 32,
        vstd::arithmetic::power2::pow2(6) == 64,
        vstd::arithmetic::power2::pow2(7) == 128,
        vstd::arithmetic::power2::pow2(8) == 256,
{
    vstd::arithmetic::power2::lemma2_to64();
}

/// The ROM length for a header size code.
pub fn get_rom_size(value: u8) -> (r: Option<usize>)
    ensures
        r matches Some(n) ==> rom_size_of(value) == Some(n as nat),
        r is None <==> rom_size_of(value) is None,
{
    proof { lemma_pow2_table(); }
    match value {
        0x00 => Some(ROM_BANK_SIZE * 2),
        0x01 => Some(ROM_BANK_SIZE * 4),
        0x02 => Some(ROM_BANK_SIZE * 8),
        0x03 => Some(ROM_BANK_SIZE * 16),
        0x04 => Some(ROM_BANK_SIZE * 32),
        0x05 => Some(ROM_BANK_SIZE * 64),
        0x06 => Some(ROM_BANK_SIZE * 128),
        0x07 => Some(ROM_BANK_SIZE * 256),
        0x08 => Some(ROM_BANK_SIZE * 512),
        _ => None,
    }
}

/// The RAM length for a header size code.
pub fn get_ram_size(value: u8) -> (r: Option<usize>)
    ensures
        r matches Some(n) ==> ram_size_of(value) == Some(n as nat),
        r is None <==> ram_size_of(value) is None,
{
    match value {
        0x00 => Some(0),
        0x02 => Some(RAM_BANK_SIZE * 1),
        0x03 => Some(RAM_BANK_SIZE * 4),
        0x04 => Some(RAM_BANK_SIZE * 16),
        0x05 => Some(RAM_BANK_SIZE * 8),
        _ => None,
    }
}

/// A cartridge: its ROM, its external RAM and the registers of its bank
/// controller. `banking_mode` is MBC1's RAM-banking mode, and for MBC3 says
/// whether RAM (rather than a clock register) is mapped at 0xA000.
pub struct Cart {
    pub kind: MbcKind,
    pub rom: Vec<u8>,
    pub ram: Vec<u8>,
    pub ram_enabled: bool,
    pub banking_mode: bool,
    pub rom_bank: usize,
    pub ram_bank: usize,
    pub rtc_select: u8,
    pub rtc: Vec<u8>,
}

pub struct CartView {
    pub kind: MbcKind,
    pub rom: Seq<u8>,
    pub ram: Seq<u8>,
    pub ram_enabled: bool,
    pub banking_mode: bool,
    pub rom_bank: int,
    pub ram_bank: int,
    pub rtc_select: u8,
    pub rtc: Seq<u8>,
}

impl View for Cart {
    type V = CartView;

    open spec fn view(&self) -> CartView {
        CartView {
            kind: self.kind,
            rom: self.rom@,
            ram: self.ram@,
            ram_enabled: self.ram_enabled,
            banking_mode: self.banking_mode,
            rom_bank: self.rom_bank as int,
            ram_bank: self.ram_bank as int,
            rtc_select: self.rtc_select,
            rtc: self.rtc@,
        }
    }
}

pub open spec fn is_rom_address(address: usize) -> bool {
    address <= 0x7FFF
}

pub open spec fn is_ram_address(address: usize) -> bool {
    0xA000 <= address <= 0xBFFF
}

impl CartView {
    /// Number of 16 KiB ROM banks.
    pub open spec fn banks(self) -> int {
        self.rom.len() as int / 0x4000
    }

    pub open spec fn wf(self) -> bool {
        &&& self.rom.len() % 0x4000 == 0
        &&& 2 <= self.banks() <= 512
        &&& 0 <= self.rom_bank < self.banks()
        &&& (self.kind != MbcKind::Mbc5 ==> self.rom_bank >= 1)
        &&& 0 <= self.ram_bank < 16
        &&& self.ram.len() <= 0x20000
        &&& self.rtc.len() == 5
        &&& (self.kind == MbcKind::Mbc2 ==> self.ram.len() == 0x200)
    }

    /// A bank number brought into the ROM; bank 0 stands for bank 1.
    pub open spec fn fix_bank(self, raw: int) -> int {
        if raw % self.banks() == 0 { 1 } else { raw % self.banks() }
    }

    /// Where an address of the 0xA000 window falls in banked RAM.
    pub open spec fn ram_index(self, address: usize) -> int {
        self.ram_bank * 0x2000 + (address - 0xA000)
    }

    pub open spec fn ram_read(self, address: usize) -> u8 {
        let off = address - 0xA000;
        match self.kind {
            MbcKind::NoMbc => if off < self.ram.len() { self.ram[off] } else { 0xFF },
            MbcKind::Mbc2 => if self.ram_enabled { (self.ram[off % 0x200] % 16) as u8 } else { 0xFF },
            MbcKind::Mbc3 => if !self.ram_enabled {
                0xFF
            } else if !self.banking_mode {
                if 0x08 <= self.rtc_select <= 0x0C { self.rtc[self.rtc_select - 0x08] } else { 0xFF }
            } else if self.ram_index(address) < self.ram.len() {
                self.ram[self.ram_index(address)]
            } else {
                0xFF
            },
            _ => if self.ram_enabled && self.ram_index(address) < self.ram.len() {
                self.ram[self.ram_index(address)]
            } else {
                0xFF
            },
        }
    }

    /// What a read of `address` returns: fixed bank 0, the switchable bank,
    /// or external RAM; 0xFF elsewhere.
    pub open spec fn read(self, address: usize) -> u8 {
        if address <= 0x3FFF {
            self.rom[address as int]
        } else if address <= 0x7FFF {
            self.rom[self.rom_bank * 0x4000 + (address - 0x4000)]
        } else if is_ram_address(address) {
            self.ram_read(address)
        } else {
            0xFF
        }
    }

    pub open spec fn ram_write(self, address: usize, data: u8) -> CartView {
        let off = address - 0xA000;
        match self.kind {
            MbcKind::NoMbc => if off < self.ram.len() {
                CartView { ram: self.ram.update(off, data), ..self }
            } else {
                self
            },
            MbcKind::Mbc2 => if self.ram_enabled {
                CartView { ram: self.ram.update(off % 0x200, (data % 16) as u8), ..self }
            } else {
                self
            },
            MbcKind::Mbc3 => if !self.ram_enabled {
                self
            } else if !self.banking_mode {
                if 0x08 <= self.rtc_select <= 0x0C {
                    CartView { rtc: self.rtc.update(self.rtc_select - 0x08, data), ..self }
                } else {
                    self
                }
            } else if self.ram_index(address) < self.ram.len() {
                CartView { ram: self.ram.update(self.ram_index(address), data), ..self }
            } else {
                self
            },
            _ => if self.ram_enabled && self.ram_index(address) < self.ram.len() {
                CartView { ram: self.ram.update(self.ram_index(address), data), ..self }
            } else {
                self
            },
        }
    }

    /// The controller registers after a write into the ROM range.
    pub open spec fn register_write(self, address: usize, data: u8) -> CartView {
        match self.kind {
            MbcKind::NoMbc => self,
            MbcKind::Mbc1 => if address <= 0x1FFF {
                CartView { ram_enabled: data % 16 == 0x0A, ..self }
            } else if address <= 0x3FFF {
                let low: int = if data % 32 == 0 { 1 } else { (data % 32) as int };
                CartView { rom_bank: self.fix_bank((self.rom_bank / 32) * 32 + low), ..self }
            } else if address <= 0x5FFF {
                if self.banking_mode {
                    CartView { ram_bank: (data % 4) as int, ..self }
                } else {
                    CartView { rom_bank: self.fix_bank(self.rom_bank % 32 + (data % 4) * 32), ..self }
                }
            } else {
                CartView { banking_mode: data % 2 == 1, ..self }
            },
            MbcKind::Mbc2 => if address <= 0x3FFF {
                if (address / 0x100) % 2 == 1 {
                    CartView { rom_bank: self.fix_bank((data % 16) as int), ..self }
                } else {
                    CartView { ram_enabled: data % 16 == 0x0A, ..self }
                }
            } else {
                self
            },
            MbcKind::Mbc3 => if address <= 0x1FFF {
                CartView { ram_enabled: data % 16 == 0x0A, ..self }
            } else if address <= 0x3FFF {
                CartView { rom_bank: self.fix_bank((data % 128) as int), ..self }
            } else if address <= 0x5FFF {
                if data <= 0x03 {
                    CartView { banking_mode: true, ram_bank: data as int, ..self }
                } else if 0x08 <= data <= 0x0C {
                    CartView { banking_mode: false, rtc_select: data, ..self }
                } else {
                    self
                }
            } else {
                self
            },
            MbcKind::Mbc5 => if address <= 0x1FFF {
                CartView { ram_enabled: data % 16 == 0x0A, ..self }
            } else if address <= 0x2FFF {
                CartView { rom_bank: ((self.rom_bank / 256) * 256 + data) % self.banks(), ..self }
            } else if address <= 0x3FFF {
                CartView { rom_bank: (self.rom_bank % 256 + (data % 2) * 256) % self.banks(), ..self }
            } else if address <= 0x5FFF {
                CartView { ram_bank: (data % 16) as int, ..self }
            } else {
                self
            },
        }
    }

    pub open spec fn write(self, address: usize, data: u8) -> CartView {
        if is_rom_address(address) {
            self.register_write(address, data)
        } else if is_ram_address(address) {
            self.ram_write(address, data)
        } else {
            self
        }
    }
}

impl Cartridge for Cart {
    open spec fn wf(&self) -> bool {
        self@.wf()
    }

    open spec fn maps(address: usize) -> bool {
        is_rom_address(address) || is_ram_address(address)
    }

    open spec fn read_spec(&self, address: usize) -> u8 {
        self@.read(address)
    }

    open spec fn write_spec(&self, address: usize, data: u8, next: Cart) -> bool {
        next@ == self@.write(address, data)
    }

    fn read(&self, address: usize) -> (r: u8) {
        if address <= 0x3FFF {
            self.rom[address]
        } else if address <= 0x7FFF {
            self.rom[self.rom_bank * ROM_BANK_SIZE + (address - 0x4000)]
        } else {
            self.read_ram(address)
        }
    }

    fn write(&mut self, address: usize, data: u8) {
        if address <= 0x7FFF {
            match self.kind {
                MbcKind::NoMbc => {},
                MbcKind::Mbc1 => self.mbc1_write(address, data),
                MbcKind::Mbc2 => self.mbc2_write(address, data),
                MbcKind::Mbc3 => self.mbc3_write(address, data),
                MbcKind::Mbc5 => self.mbc5_write(address, data),
            }
        } else {
            self.write_ram(address, data);
        }
    }
}

impl Cart {
    fn read_ram(&self, address: usize) -> (r: u8)
        requires
            self@.wf(),
            is_ram_address(address),
        ensures
            r == self@.ram_read(address),
    {
        let off = address - 0xA000;
        match self.kind {
            MbcKind::NoMbc => if off < self.ram.len() { self.ram[off] } else { 0xFF },
            MbcKind::Mbc2 => if self.ram_enabled { self.ram[off % MBC2_RAM_SIZE] % 16 } else { 0xFF },
            MbcKind::Mbc3 => {
                if !self.ram_enabled {
                    0xFF
                } else if !self.banking_mode {
                    if 0x08 <= self.rtc_select && self.rtc_select <= 0x0C {
                        self.rtc[(self.rtc_select - 0x08) as usize]
                    } else {
                        0xFF
                    }
                } else {
                    let index = self.ram_bank * RAM_BANK_SIZE + off;
                    if index < self.ram.len() { self.ram[index] } else { 0xFF }
                }
            },
            _ => {
                let index = self.ram_bank * RAM_BANK_SIZE + off;
                if self.ram_enabled && index < self.ram.len() { self.ram[index] } else { 0xFF }
            },
        }
    }

    fn write_ram(&mut self, address: usize, data: u8)
        requires
            old(self)@.wf(),
            is_ram_address(address),
        ensures
            final(self)@ == old(self)@.ram_write(address, data),
            final(self)@.wf(),
    {
        let off = address - 0xA000;
        match self.kind {
            MbcKind::NoMbc => {
                if off < self.ram.len() {
                    self.ram.set(off, data);
                }
            },
            MbcKind::Mbc2 => {
                if self.ram_enabled {
                    self.ram.set(off % MBC2_RAM_SIZE, data % 16);
                }
            },
            MbcKind::Mbc3 => {
                if self.ram_enabled {
                    if !self.banking_mode {
                        if 0x08 <= self.rtc_select && self.rtc_select <= 0x0C {
                            self.rtc.set((self.rtc_select - 0x08) as usize, data);
                        }
                    } else {
                        let index = self.ram_bank * RAM_BANK_SIZE + off;
                        if index < self.ram.len() {
                            self.ram.set(index, data);
                        }
                    }
                }
            },
            _ => {
                let index = self.ram_bank * RAM_BANK_SIZE + off;
                if self.ram_enabled && index < self.ram.len() {
                    self.ram.set(index, data);
                }
            },
        }
    }

    /// A bank number brought into the ROM; bank 0 stands for bank 1.
    fn fix_bank(&self, raw: usize) -> (r: usize)
        requires
            self@.wf(),
        ensures
            r == self@.fix_bank(raw as int),
    {
        let banks = self.rom.len() / ROM_BANK_SIZE;
        let b = raw % banks;
        if b == 0 { 1 } else { b }
    }

    fn mbc1_write(&mut self, address: usize, data: u8)
        requires
            old(self)@.wf(),
            old(self).kind == MbcKind::Mbc1,
            is_rom_address(address),
        ensures
            final(self)@ == old(self)@.register_write(address, data),
            final(self)@.wf(),
    {
        if address <= 0x1FFF {
            self.ram_enabled = data % 16 == 0x0A;
        } else if address <= 0x3FFF {
            let low: usize = if data % 32 == 0 { 1 } else { (data % 32) as usize };
            self.rom_bank = self.fix_bank((self.rom_bank / 32) * 32 + low);
        } else if address <= 0x5FFF {
            if self.banking_mode {
                self.ram_bank = (data % 4) as usize;
            } else {
                self.rom_bank = self.fix_bank(self.rom_bank % 32 + ((data % 4) as usize) * 32);
            }
        } else {
            self.banking_mode = data % 2 == 1;
        }
    }

    fn mbc2_write(&mut self, address: usize, data: u8)
        requires
            old(self)@.wf(),
            old(self).kind == MbcKind::Mbc2,
            is_rom_address(address),
        ensures
            final(self)@ == old(self)@.register_write(address, data),
            final(self)@.wf(),
    {
        if address <= 0x3FFF {
            if (address / 0x100) % 2 == 1 {
                self.rom_bank = self.fix_bank((data % 16) as usize);
            } else {
                self.ram_enabled = data % 16 == 0x0A;
            }
        }
    }

    fn mbc3_write(&mut self, address: usize, data: u8)
        requires
            old(self)@.wf(),
            old(self).kind == MbcKind::Mbc3,
            is_rom_address(address),
        ensures
            final(self)@ == old(self)@.register_write(address, data),
            final(self)@.wf(),
    {
        if address <= 0x1FFF {
            self.ram_enabled = data % 16 == 0x0A;
        } else if address <= 0x3FFF {
            self.rom_bank = self.fix_bank((data % 128) as usize);
        } else if address <= 0x5FFF {
            if data <= 0x03 {
                self.banking_mode = true;
                self.ram_bank = data as usize;
            } else if 0x08 <= data && data <= 0x0C {
                self.banking_mode = false;
                self.rtc_select = data;
            }
        }
    }

    fn mbc5_write(&mut self, address: usize, data: u8)
        requires
            old(self)@.wf(),
            old(self).kind == MbcKind::Mbc5,
            is_rom_address(address),
        ensures
            final(self)@ == old(self)@.register_write(address, data),
            final(self)@.wf(),
    {
        let banks = self.rom.len() / ROM_BANK_SIZE;
        if address <= 0x1FFF {
            self.ram_enabled = data % 16 == 0x0A;
        } else if address <= 0x2FFF {
            self.rom_bank = ((self.rom_bank / 256) * 256 + data as usize) % banks;
        } else if address <= 0x3FFF {
            self.rom_bank = (self.rom_bank % 256 + ((data % 2) as usize) * 256) % banks;
        } else if address <= 0x5FFF {
            self.ram_bank = (data % 16) as usize;
        }
    }
}

/// `n` zero bytes.
pub fn zeroed(n: usize) -> (r: Vec<u8>)
    ensures
        r@ == Seq::new(n as nat, |i: int| 0u8),
{
    let mut r: Vec<u8> = Vec::with_capacity(n);
    let mut k: usize = 0;
    while k < n
        invariant
            k <= n,
            r@ == Seq::new(k as nat, |i: int| 0u8),
        decreases n - k,
    {
        r.push(0);
        k = k + 1;
    }
    r
}

/// The cartridge as it stands after power-on with this ROM and a header that
/// decoded to `kind`, with `ram_len` bytes of cleared RAM.
pub open spec fn initial_cart(kind: MbcKind, rom: Seq<u8>, ram_len: nat) -> CartView {
    CartView {
        kind,
        rom,
        ram: Seq::new(ram_len, |i: int| 0u8),
        ram_enabled: false,
        banking_mode: kind == MbcKind::Mbc3,
        rom_bank: 1,
        ram_bank: 0,
        rtc_select: 0x08,
        rtc: Seq::new(5, |i: int| 0u8),
    }
}

/// The RAM length a cartridge of this kind gets from the header's code.
pub open spec fn cart_ram_len(kind: MbcKind, ram_code: u8) -> Option<nat> {
    if kind == MbcKind::Mbc2 { Some(0x200) } else { ram_size_of(ram_code) }
}

/// Whether a ROM image has a header this library can load.
pub open spec fn decodes(rom: Seq<u8>) -> bool {
    &&& rom.len() >= 0x150
    &&& kind_of(rom[0x147]) is Some
    &&& rom_size_of(rom[0x148]) == Some(rom.len())
    &&& cart_ram_len(kind_of(rom[0x147])->0, rom[0x149]) is Some
}

/// Decodes the header of a ROM image and builds its cartridge.
pub fn load_rom(rom: Vec<u8>) -> (r: Result<Cart, CartridgeError>)
    ensures
        rom@.len() < 0x150 ==> r == Err::<Cart, CartridgeError>(CartridgeError::MalformedRom),
        rom@.len() >= 0x150 && kind_of(rom@[0x147]) is None
            ==> r == Err::<Cart, CartridgeError>(CartridgeError::UnsupportedCartridge),
        rom@.len() >= 0x150 && kind_of(rom@[0x147]) is Some
            && (rom_size_of(rom@[0x148]) != Some(rom@.len())
                || cart_ram_len(kind_of(rom@[0x147])->0, rom@[0x149]) is None)
            ==> r == Err::<Cart, CartridgeError>(CartridgeError::MalformedRom),
        r matches Ok(c) ==> {
            &&& rom@.len() >= 0x150
            &&& kind_of(rom@[0x147]) == Some(c.kind)
            &&& rom_size_of(rom@[0x148]) == Some(rom@.len())
            &&& cart_ram_len(c.kind, rom@[0x149]) is Some
            &&& c@ == initial_cart(c.kind, rom@, cart_ram_len(c.kind, rom@[0x149])->0)
            &&& c@.wf()
        },
        decodes(rom@) ==> r is Ok,
        r is Err ==> r == Err::<Cart, CartridgeError>(CartridgeError::MalformedRom)
            || r == Err::<Cart, CartridgeError>(CartridgeError::UnsupportedCartridge),
{
    if rom.len() < 0x150 {
        return Err(CartridgeError::MalformedRom);
    }
    let code = rom[REGISTER_CARTRIDGE_TYPE];
    let kind = if code == 0x00 || code == 0x08 || code == 0x09 {
        MbcKind::NoMbc
    } else if 0x01 <= code && code <= 0x03 {
        MbcKind::Mbc1
    } else if code == 0x05 || code == 0x06 {
        MbcKind::Mbc2
    } else if 0x0F <= code && code <= 0x13 {
        MbcKind::Mbc3
    } else if 0x19 <= code && code <= 0x1E {
        MbcKind::Mbc5
    } else {
        return Err(CartridgeError::UnsupportedCartridge);
    };
    let rom_size = match get_rom_size(rom[REGISTER_ROM_SIZE]) {
        Some(n) => n,
        None => return Err(CartridgeError::MalformedRom),
    };
    if rom.len() != rom_size {
        return Err(CartridgeError::MalformedRom);
    }
    let ram_size = if kind == MbcKind::Mbc2 {
        MBC2_RAM_SIZE
    } else {
        match get_ram_size(rom[REGISTER_RAM_SIZE]) {
            Some(n) => n,
            None => return Err(CartridgeError::MalformedRom),
        }
    };
    proof {
        lemma_pow2_table();
        assert(rom@.len() % 0x4000 == 0);
    }
    let c = Cart {
        kind,
        rom,
        ram: zeroed(ram_size),
        ram_enabled: false,
        banking_mode: kind == MbcKind::Mbc3,
        rom_bank: 1,
        ram_bank: 0,
        rtc_select: 0x08,
        rtc: zeroed(5),
    };
    Ok(c)
}

impl Cart {
    /// The battery-backed RAM as bytes (MBC2: one nibble per byte).
    pub fn serialize(&self) -> (r: Vec<u8>)
        ensures
            r@ == self.ram@,
    {
        self.ram.clone()
    }

    /// Restores battery-backed RAM saved by `serialize`; data of another
    /// length is refused and leaves the cartridge as it was.
    pub fn deserialize(&mut self, data: Vec<u8>) -> (r: bool)
        requires
            old(self)@.wf(),
        ensures
            r == (data@.len() == old(self).ram@.len()),
            r ==> final(self)@ == (CartView { ram: data@, ..old(self)@ }),
            !r ==> *final(self) == *old(self),
            final(self)@.wf(),
    {
        if data.len() == self.ram.len() {
            self.ram = data;
            true
        } else {
            false
        }
    }
}

/// After any write to a cartridge, the switchable ROM window lies inside the
/// ROM, and (but on MBC5, where bank 0 is legal) shows a bank other than 0.
pub proof fn lemma_rom_window_after_write(c: CartView, address: usize, data: u8)
    requires
        c.wf(),
    ensures
        c.write(address, data).rom_bank * 0x4000 + 0x3FFF < c.write(address, data).rom.len(),
        c.write(address, data).rom == c.rom,
        c.kind != MbcKind::Mbc5 ==> c.write(address, data).rom_bank >= 1,
{
    lemma_write_keeps_wf(c, address, data);
}

/// Every write keeps a cartridge well formed.
pub proof fn lemma_write_keeps_wf(c: CartView, address: usize, data: u8)
    requires
        c.wf(),
    ensures
        c.write(address, data).wf(),
        c.write(address, data).kind == c.kind,
{
}

/// After any write through `Cartridge::write`, the switchable ROM window of
/// the cartridge lies inside its ROM, the ROM bytes are unchanged, and (but
/// on MBC5, where bank 0 is legal) the window shows a bank other than 0.
pub proof fn lemma_cart_write_keeps_window(c: Cart, address: usize, data: u8, next: Cart)
    requires
        c.wf(),
        c.write_spec(address, data, next),
    ensures
        next.rom_bank * 0x4000 + 0x3FFF < next.rom@.len(),
        next.rom@ == c.rom@,
        next.kind != MbcKind::Mbc5 ==> next.rom_bank >= 1,
{
    lemma_rom_window_after_write(c@, address, data);
    lemma_write_keeps_wf(c@, address, data);
}

} // verus!
