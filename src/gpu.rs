//! The pixel pipeline: VRAM, OAM, LCD registers, the scanline state machine
//! and the 160x144 frame buffer.
use vstd::prelude::*;
use crate::bits::bit_of;
use crate::cartridge::Cartridge;

verus! {

pub const COLOR_WHITE: u32 = 0xFFFFFF;
pub const COLOR_LIGHT_GRAY: u32 = 0xCCCCCC;
pub const COLOR_DARK_GRAY: u32 = 0x777777;
pub const COLOR_BLACK: u32 = 0x000000;

pub const SCREEN_WIDTH: usize = 160;
pub const SCREEN_HEIGHT: usize = 144;

pub const MODE_HBLANK: u8 = 0;
pub const MODE_VBLANK: u8 = 1;
pub const MODE_OAM: u8 = 2;
pub const MODE_VRAM: u8 = 3;

pub const VRAM_SIZE: usize = 0x2000;
pub const OAM_SIZE: usize = 0xA0;
pub const TILE_COUNT: usize = 384;
pub const SPRITE_COUNT: usize = 40;
pub const FRAME_SIZE: usize = 23040;

/// A decoded OAM entry; `y` and `x` are already moved to screen coordinates.
#[derive(Clone, Copy, Debug, PartialEq, Eq, Structural)]
pub struct Sprite {
    pub y: u8,
    pub x: u8,
    pub tile_index: u8,
    pub bg_priority: bool,
    pub y_flip: bool,
    pub x_flip: bool,
    pub palette: bool,
}

/// `tiles` holds 384 decoded tiles of 8x8 two-bit colors, tile `t`, row `y`,
/// column `x` at `t * 64 + y * 8 + x`. `cycles` counts master cycles spent in
/// the current mode, which STAT bits 0-1 hold.
pub struct GPU {
    pub vram: Vec<u8>,
    pub oam: Vec<u8>,
    pub tiles: Vec<u8>,
    pub sprites: Vec<Sprite>,
    pub video_buffer: Vec<u32>,
    pub cycles: u16,
    pub lcd_control: u8,
    pub lcd_status: u8,
    pub scroll_y: u8,
    pub scroll_x: u8,
    pub window_y: u8,
    pub window_x: u8,
    pub ly: u8,
    pub ly_compare: u8,
    pub bg_palette: u8,
    pub obj_palette_0: u8,
    pub obj_palette_1: u8,
}

/// The ARGB word of a shade 0-3.
pub open spec fn shade_color(shade: u8) -> u32 {
    if shade == 0 {
        COLOR_WHITE
    } else if shade == 1 {
        COLOR_LIGHT_GRAY
    } else if shade == 2 {
        COLOR_DARK_GRAY
    } else {
        COLOR_BLACK
    }
}

/// A two-bit color index translated through a palette register.
pub open spec fn palette_color(palette: u8, color: u8) -> u32 {
    shade_color((palette >> ((color % 4) * 2) as u8) & 3)
}

/// The color index of column `x` in a tile row given by its two bytes.
pub open spec fn tile_pixel(lo: u8, hi: u8, x: int) -> u8 {
    ((((hi >> (7 - x) as u8) & 1) << 1u8) | ((lo >> (7 - x) as u8) & 1)) as u8
}

/// `frame` with line `ly` replaced by `row`.
pub open spec fn with_line(frame: Seq<u32>, ly: u8, row: Seq<u32>) -> Seq<u32> {
    Seq::new(frame.len(), |i: int| if ly * 160 <= i < ly * 160 + 160 { row[i - ly * 160] } else { frame[i] })
}

/// Line `ly` of a frame.
pub open spec fn line_of(frame: Seq<u32>, ly: u8) -> Seq<u32> {
    Seq::new(160, |x: int| frame[ly * 160 + x])
}

/// Sprite height in lines: 16 when LCDC bit 2 is set, else 8.
pub open spec fn sprite_height(lcdc: u8) -> int {
    if bit_of(lcdc, 2) { 16 } else { 8 }
}

/// The duration of a mode, in master cycles.
pub open spec fn mode_length(mode: u8) -> int {
    if mode == MODE_OAM {
        80
    } else if mode == MODE_VRAM {
        172
    } else if mode == MODE_HBLANK {
        200
    } else {
        456
    }
}

/// The sprite that four OAM bytes describe.
pub open spec fn sprite_of(b0: u8, b1: u8, b2: u8, b3: u8) -> Sprite {
    Sprite {
        y: ((b0 + 256 - 16) % 256) as u8,
        x: ((b1 + 256 - 8) % 256) as u8,
        tile_index: b2,
        bg_priority: bit_of(b3, 7),
        y_flip: bit_of(b3, 6),
        x_flip: bit_of(b3, 5),
        palette: bit_of(b3, 4),
    }
}

/// One mode change of the scanline machine from `mode` on line `ly`, with
/// STAT enable bits `enables` and LYC `lyc`: the next mode, the next line,
/// whether VBLANK was entered, whether an LCD STAT request was raised.
pub open spec fn transition(enables: u8, lyc: u8, mode: u8, ly: u8) -> (u8, u8, bool, bool) {
    if mode == MODE_OAM {
        (MODE_VRAM, ly, false, false)
    } else if mode == MODE_VRAM {
        (MODE_HBLANK, ly, false, bit_of(enables, 3))
    } else if mode == MODE_HBLANK {
        let next = (ly + 1) as u8;
        let coincide = next == lyc && bit_of(enables, 6);
        if next >= 144 {
            (MODE_VBLANK, next, true, bit_of(enables, 4) || coincide)
        } else {
            (MODE_OAM, next, false, bit_of(enables, 5) || coincide)
        }
    } else if ly + 1 == 154 {
        (MODE_OAM, 0, false, bit_of(enables, 5) || (0 == lyc && bit_of(enables, 6)))
    } else {
        (MODE_VBLANK, (ly + 1) as u8, false, (ly + 1) as u8 == lyc && bit_of(enables, 6))
    }
}

/// The machine after `remaining` cycles from the start of `mode`: the mode,
/// the line, the cycles spent in that mode, whether VBLANK was entered,
/// whether an LCD STAT request was raised.
pub open spec fn scan(enables: u8, lyc: u8, mode: u8, ly: u8, remaining: int) -> (u8, u8, int, bool, bool)
    decreases remaining,
{
    if remaining < mode_length(mode) || mode_length(mode) <= 0 {
        (mode, ly, remaining, false, false)
    } else {
        let (m, l, v, st) = transition(enables, lyc, mode, ly);
        let rest = scan(enables, lyc, m, l, remaining - mode_length(mode));
        (rest.0, rest.1, rest.2, v || rest.3, st || rest.4)
    }
}

pub proof fn lemma_enables(s: u8, m: u8)
    requires
        m < 4,
    ensures
        bit_of(s & 0x78, 3) == bit_of(s, 3),
        bit_of(s & 0x78, 4) == bit_of(s, 4),
        bit_of(s & 0x78, 5) == bit_of(s, 5),
        bit_of(s & 0x78, 6) == bit_of(s, 6),
        ((s & 0xFC) | m) & 0x78 == s & 0x78,
        (s | 4) & 0x78 == s & 0x78,
        (s & !4u8) & 0x78 == s & 0x78,
        bit_of((s & 0xFC) | m, 5) == bit_of(s, 5),
{
    assert(bit_of((s & 0xFC) | m, 5) == bit_of(s, 5)) by (bit_vector)
        requires m < 4;
    assert(bit_of(s & 0x78, 3) == bit_of(s, 3) && bit_of(s & 0x78, 4) == bit_of(s, 4)
        && bit_of(s & 0x78, 5) == bit_of(s, 5) && bit_of(s & 0x78, 6) == bit_of(s, 6)) by (bit_vector);
    assert(((s & 0xFC) | m) & 0x78 == s & 0x78 && (s | 4) & 0x78 == s & 0x78 && (s & !4u8) & 0x78 == s & 0x78)
        by (bit_vector)
        requires m < 4;
}

pub open spec fn is_gpu_address(address: usize) -> bool {
    (0x8000 <= address <= 0x9FFF) || (0xFE00 <= address <= 0xFE9F) || (0xFF40 <= address <= 0xFF4B
        && address != 0xFF46)
}

impl GPU {
    pub open spec fn mode_spec(&self) -> u8 {
        self.lcd_status & 3
    }

    /// Sizes of the stores, and the scanline machine's bounds: LY below 154,
    /// VBLANK exactly on lines 144-153 (or line 0 while the LCD is held off),
    /// the cycle count below the mode's length, STAT bit 2 equal to LY == LYC.
    pub open spec fn inv(&self) -> bool {
        &&& self.vram@.len() == VRAM_SIZE
        &&& self.oam@.len() == OAM_SIZE
        &&& self.tiles@.len() == TILE_COUNT * 64
        &&& self.sprites@.len() == SPRITE_COUNT
        &&& self.video_buffer@.len() == FRAME_SIZE
        &&& self.ly < 154
        &&& (self.mode_spec() == MODE_VBLANK ==> self.ly >= 144 || (self.ly == 0 && self.cycles == 0))
        &&& (self.mode_spec() != MODE_VBLANK ==> self.ly < 144)
        &&& self.cycles < mode_length(self.mode_spec())
        &&& bit_of(self.lcd_status, 2) == (self.ly == self.ly_compare)
    }

    /// Registers other than the stores, the cycle count and LY/STAT agree.
    pub open spec fn same_registers(&self, other: &GPU) -> bool {
        &&& self.lcd_control == other.lcd_control
        &&& self.scroll_y == other.scroll_y
        &&& self.scroll_x == other.scroll_x
        &&& self.window_y == other.window_y
        &&& self.window_x == other.window_x
        &&& self.ly_compare == other.ly_compare
        &&& self.bg_palette == other.bg_palette
        &&& self.obj_palette_0 == other.obj_palette_0
        &&& self.obj_palette_1 == other.obj_palette_1
    }

    /// The tile cache with row `(address % 16) / 2` of tile `address / 16`
    /// decoded again from `vram`.
    pub open spec fn tiles_with_row(tiles: Seq<u8>, vram: Seq<u8>, address: int) -> Seq<u8> {
        let base = (address / 16) * 64 + ((address % 16) / 2) * 8;
        let row = address - address % 2;
        Seq::new(
            tiles.len(),
            |i: int|
                if base <= i < base + 8 {
                    tile_pixel(vram[row], vram[row + 1], i - base)
                } else {
                    tiles[i]
                },
        )
    }

    pub open spec fn register_read(&self, address: usize) -> u8 {
        if address == 0xFF40 {
            self.lcd_control
        } else if address == 0xFF41 {
            self.lcd_status
        } else if address == 0xFF42 {
            self.scroll_y
        } else if address == 0xFF43 {
            self.scroll_x
        } else if address == 0xFF44 {
            self.ly
        } else if address == 0xFF45 {
            self.ly_compare
        } else if address == 0xFF47 {
            self.bg_palette
        } else if address == 0xFF48 {
            self.obj_palette_0
        } else if address == 0xFF49 {
            self.obj_palette_1
        } else if address == 0xFF4A {
            self.window_y
        } else if address == 0xFF4B {
            self.window_x
        } else {
            0xFF
        }
    }

    /// STAT after LY or LYC changed: bit 2 is set again from the comparison.
    pub open spec fn status_with_coincidence(status: u8, equal: bool) -> u8 {
        if equal { status | 4 } else { status & !4u8 }
    }

    pub open spec fn register_write_ok(&self, address: usize, data: u8, next: GPU) -> bool {
        let same = GPU { vram: next.vram, oam: next.oam, tiles: next.tiles, sprites: next.sprites,
            video_buffer: next.video_buffer, ..*self };
        if address == 0xFF40 {
            next == GPU { lcd_control: data, ..same }
        } else if address == 0xFF41 {
            next == GPU { lcd_status: (data & 0x78) | (self.lcd_status & 0x87), ..same }
        } else if address == 0xFF42 {
            next == GPU { scroll_y: data, ..same }
        } else if address == 0xFF43 {
            next == GPU { scroll_x: data, ..same }
        } else if address == 0xFF44 {
            next == GPU { ly: 0, cycles: 0, lcd_status: GPU::status_with_coincidence(self.lcd_status, 0 == self.ly_compare), ..same }
        } else if address == 0xFF45 {
            next == GPU { ly_compare: data, lcd_status: GPU::status_with_coincidence(self.lcd_status, self.ly == data), ..same }
        } else if address == 0xFF47 {
            next == GPU { bg_palette: data, ..same }
        } else if address == 0xFF48 {
            next == GPU { obj_palette_0: data, ..same }
        } else if address == 0xFF49 {
            next == GPU { obj_palette_1: data, ..same }
        } else if address == 0xFF4A {
            next == GPU { window_y: data, ..same }
        } else {
            next == GPU { window_x: data, ..same }
        }
    }
}

pub proof fn lemma_coincidence(status: u8, equal: bool)
    ensures
        bit_of(GPU::status_with_coincidence(status, equal), 2) == equal,
        GPU::status_with_coincidence(status, equal) & 3 == status & 3,
{
    assert(bit_of(status | 4, 2) && !bit_of(status & !4u8, 2) && (status | 4) & 3 == status & 3
        && (status & !4u8) & 3 == status & 3) by (bit_vector);
}

pub proof fn lemma_stat_write(status: u8, data: u8)
    ensures
        ((data & 0x78) | (status & 0x87)) & 3 == status & 3,
        bit_of((data & 0x78) | (status & 0x87), 2) == bit_of(status, 2),
        (status & 0x78) | (status & 0x87) == status,
{
    assert(((data & 0x78) | (status & 0x87)) & 3 == status & 3
        && bit_of((data & 0x78) | (status & 0x87), 2) == bit_of(status, 2)
        && (status & 0x78) | (status & 0x87) == status) by (bit_vector);
}

pub proof fn lemma_set_mode(status: u8, mode: u8)
    requires
        mode < 4,
    ensures
        ((status & 0xFC) | mode) & 3 == mode,
        bit_of((status & 0xFC) | mode, 2) == bit_of(status, 2),
{
    assert(((status & 0xFC) | mode) & 3 == mode && bit_of((status & 0xFC) | mode, 2) == bit_of(status, 2))
        by (bit_vector)
        requires mode < 4;
}

impl GPU {
    /// The pipeline at power-on: LCD on, line 0, mode OAM.
    pub fn new() -> (r: GPU)
        ensures
            r.inv(),
            r.ly == 0,
            r.mode_spec() == MODE_OAM,
            r.cycles == 0,
            r.lcd_control == 0x91,
            r.vram@ == Seq::new(VRAM_SIZE as nat, |i: int| 0u8),
            r.oam@ == Seq::new(OAM_SIZE as nat, |i: int| 0u8),
    {
        let mut sprites: Vec<Sprite> = Vec::new();
        let mut k: usize = 0;
        while k < SPRITE_COUNT
            invariant
                k <= SPRITE_COUNT,
                sprites@.len() == k,
            decreases SPRITE_COUNT - k,
        {
            sprites.push(Sprite { y: 0xF0, x: 0xF8, tile_index: 0, bg_priority: false, y_flip: false, x_flip: false, palette: false });
            k = k + 1;
        }
        let mut video_buffer: Vec<u32> = Vec::new();
        let mut k: usize = 0;
        while k < FRAME_SIZE
            invariant
                k <= FRAME_SIZE,
                video_buffer@.len() == k,
            decreases FRAME_SIZE - k,
        {
            video_buffer.push(COLOR_WHITE);
            k = k + 1;
        }
        proof {
            assert(bit_of(0x86u8, 2)) by (bit_vector);
            assert(0x86u8 & 3 == 2) by (bit_vector);
        }
        GPU {
            vram: crate::cartridge::zeroed(VRAM_SIZE),
            oam: crate::cartridge::zeroed(OAM_SIZE),
            tiles: crate::cartridge::zeroed(TILE_COUNT * 64),
            sprites,
            video_buffer,
            cycles: 0,
            lcd_control: 0x91,
            lcd_status: 0x86,
            scroll_y: 0x00,
            scroll_x: 0x00,
            window_y: 0x00,
            window_x: 0x00,
            ly: 0x00,
            ly_compare: 0x00,
            bg_palette: 0xFC,
            obj_palette_0: 0xFF,
            obj_palette_1: 0xFF,
        }
    }

    /// The ARGB word for color index `color` under `palette`.
    pub fn get_color(palette: u8, color: u8) -> (r: u32)
        ensures
            r == palette_color(palette, color),
    {
        let shade = (palette >> ((color % 4) * 2)) & 3;
        if shade == 0 {
            COLOR_WHITE
        } else if shade == 1 {
            COLOR_LIGHT_GRAY
        } else if shade == 2 {
            COLOR_DARK_GRAY
        } else {
            COLOR_BLACK
        }
    }

    pub fn mode(&self) -> (r: u8)
        ensures
            r == self.mode_spec(),
            r < 4,
    {
        let status = self.lcd_status;
        assert(status & 3 < 4) by (bit_vector);
        status & 3
    }

    pub fn lcd_enabled(&self) -> (r: bool)
        ensures
            r == bit_of(self.lcd_control, 7),
    {
        (self.lcd_control >> 7u8) & 1 == 1
    }

    /// Decodes again the tile row that VRAM offset `address` belongs to.
    fn update_tile(&mut self, address: usize)
        requires
            old(self).inv(),
            address < 0x1800,
        ensures
            final(self).tiles@ == GPU::tiles_with_row(old(self).tiles@, old(self).vram@, address as int),
            *final(self) == (GPU { tiles: final(self).tiles, ..*old(self) }),
    {
        let row = address - address % 2;
        let data1 = self.vram[row];
        let data2 = self.vram[row + 1];
        assert((address / 16) * 64 + ((address % 16) / 2) * 8 + 8 <= 24576) by (nonlinear_arith)
            requires address < 0x1800;
        let base = (address / 16) * 64 + ((address % 16) / 2) * 8;
        let mut x: usize = 0;
        while x < 8
            invariant
                x <= 8,
                base + 8 <= TILE_COUNT * 64,
                row == address - address % 2,
                row + 1 < VRAM_SIZE,
                self.tiles@.len() == TILE_COUNT * 64,
                data1 == old(self).vram@[row as int],
                data2 == old(self).vram@[row + 1],
                base == (address / 16) * 64 + ((address % 16) / 2) * 8,
                self.tiles@.len() == old(self).tiles@.len(),
                forall|i: int| 0 <= i < self.tiles@.len() ==> #[trigger] self.tiles@[i] == (
                    if base <= i < base + x { tile_pixel(data1, data2, i - base) } else { old(self).tiles@[i] }),
                *self == (GPU { tiles: self.tiles, ..*old(self) }),
            decreases 8 - x,
        {
            let bit1 = (data1 >> (7 - x) as u8) & 1;
            let bit2 = (data2 >> (7 - x) as u8) & 1;
            let color = (bit2 << 1u8) | bit1;
            self.tiles.set(base + x, color);
            x = x + 1;
        }
        assert(self.tiles@ =~= GPU::tiles_with_row(old(self).tiles@, old(self).vram@, address as int));
    }

    /// Decodes again the sprite that OAM offset `address` belongs to.
    fn update_sprite(&mut self, address: usize)
        requires
            old(self).inv(),
            address < OAM_SIZE,
        ensures
            final(self).sprites@ == old(self).sprites@.update(
                (address / 4) as int,
                sprite_of(
                    old(self).oam@[(address - address % 4) as int],
                    old(self).oam@[address - address % 4 + 1],
                    old(self).oam@[address - address % 4 + 2],
                    old(self).oam@[address - address % 4 + 3],
                ),
            ),
            *final(self) == (GPU { sprites: final(self).sprites, ..*old(self) }),
    {
        let base = address - address % 4;
        let flags = self.oam[base + 3];
        let sprite = Sprite {
            y: self.oam[base].wrapping_sub(16),
            x: self.oam[base + 1].wrapping_sub(8),
            tile_index: self.oam[base + 2],
            bg_priority: (flags >> 7u8) & 1 == 1,
            y_flip: (flags >> 6u8) & 1 == 1,
            x_flip: (flags >> 5u8) & 1 == 1,
            palette: (flags >> 4u8) & 1 == 1,
        };
        self.sprites.set(address / 4, sprite);
    }
}

impl Cartridge for GPU {
    open spec fn wf(&self) -> bool {
        self.inv()
    }

    open spec fn maps(address: usize) -> bool {
        is_gpu_address(address)
    }

    open spec fn read_spec(&self, address: usize) -> u8 {
        if 0x8000 <= address <= 0x9FFF {
            self.vram@[address - 0x8000]
        } else if 0xFE00 <= address <= 0xFE9F {
            self.oam@[address - 0xFE00]
        } else {
            self.register_read(address)
        }
    }

    open spec fn write_spec(&self, address: usize, data: u8, next: GPU) -> bool {
        if 0x8000 <= address <= 0x9FFF {
            let off = address - 0x8000;
            &&& next.vram@ == self.vram@.update(off, data)
            &&& next.tiles@ == (if off < 0x1800 {
                GPU::tiles_with_row(self.tiles@, next.vram@, off)
            } else {
                self.tiles@
            })
            &&& next == (GPU { vram: next.vram, tiles: next.tiles, ..*self })
        } else if 0xFE00 <= address <= 0xFE9F {
            let off = address - 0xFE00;
            let base = off - off % 4;
            &&& next.oam@ == self.oam@.update(off, data)
            &&& next.sprites@ == self.sprites@.update(
                off / 4,
                sprite_of(next.oam@[base], next.oam@[base + 1], next.oam@[base + 2], next.oam@[base + 3]),
            )
            &&& next == (GPU { oam: next.oam, sprites: next.sprites, ..*self })
        } else {
            &&& self.register_write_ok(address, data, next)
            &&& next.vram == self.vram
            &&& next.oam == self.oam
            &&& next.tiles == self.tiles
            &&& next.sprites == self.sprites
            &&& next.video_buffer == self.video_buffer
        }
    }

    fn read(&self, address: usize) -> (r: u8) {
        if 0x8000 <= address && address <= 0x9FFF {
            self.vram[address - 0x8000]
        } else if 0xFE00 <= address && address <= 0xFE9F {
            self.oam[address - 0xFE00]
        } else if address == 0xFF40 {
            self.lcd_control
        } else if address == 0xFF41 {
            self.lcd_status
        } else if address == 0xFF42 {
            self.scroll_y
        } else if address == 0xFF43 {
            self.scroll_x
        } else if address == 0xFF44 {
            self.ly
        } else if address == 0xFF45 {
            self.ly_compare
        } else if address == 0xFF47 {
            self.bg_palette
        } else if address == 0xFF48 {
            self.obj_palette_0
        } else if address == 0xFF49 {
            self.obj_palette_1
        } else if address == 0xFF4A {
            self.window_y
        } else if address == 0xFF4B {
            self.window_x
        } else {
            0xFF
        }
    }

    fn write(&mut self, address: usize, value: u8) {
        proof {
            lemma_coincidence(self.lcd_status, 0 == self.ly_compare);
            lemma_coincidence(self.lcd_status, self.ly == value);
            lemma_stat_write(self.lcd_status, value);
        }
        if 0x8000 <= address && address <= 0x9FFF {
            let off = address - 0x8000;
            self.vram.set(off, value);
            if off < 0x1800 {
                self.update_tile(off);
            }
        } else if 0xFE00 <= address && address <= 0xFE9F {
            let off = address - 0xFE00;
            self.oam.set(off, value);
            self.update_sprite(off);
        } else if address == 0xFF40 {
            self.lcd_control = value;
        } else if address == 0xFF41 {
            self.lcd_status = (value & 0x78) | (self.lcd_status & 0x87);
        } else if address == 0xFF42 {
            self.scroll_y = value;
        } else if address == 0xFF43 {
            self.scroll_x = value;
        } else if address == 0xFF44 {
            self.ly = 0;
            self.cycles = 0;
            self.compare_ly_lyc();
        } else if address == 0xFF45 {
            self.ly_compare = value;
            self.compare_ly_lyc();
        } else if address == 0xFF47 {
            self.bg_palette = value;
        } else if address == 0xFF48 {
            self.obj_palette_0 = value;
        } else if address == 0xFF49 {
            self.obj_palette_1 = value;
        } else if address == 0xFF4A {
            self.window_y = value;
        } else {
            self.window_x = value;
        }
    }
}

impl GPU {
    /// Sets STAT bit 2 from LY == LYC; returns 2, the request mask for IF
    /// bit 1 (LCD STAT), when they are equal and STAT bit 6 enables it, else 0.
    fn compare_ly_lyc(&mut self) -> (r: u8)
        ensures
            *final(self) == (GPU {
                lcd_status: GPU::status_with_coincidence(old(self).lcd_status, old(self).ly == old(self).ly_compare),
                ..*old(self)
            }),
            r == (if old(self).ly == old(self).ly_compare && bit_of(old(self).lcd_status, 6) { 2u8 } else { 0u8 }),
    {
        let equal = self.ly == self.ly_compare;
        let enabled = (self.lcd_status >> 6u8) & 1 == 1;
        if equal {
            self.lcd_status = self.lcd_status | 4;
        } else {
            self.lcd_status = self.lcd_status & !4u8;
        }
        if equal && enabled { 2 } else { 0 }
    }
}

impl GPU {
    /// Whether pixel `pixel` of line `ly` is taken from the window.
    pub open spec fn uses_window(&self, ly: u8, pixel: int) -> bool {
        bit_of(self.lcd_control, 5) && self.window_y <= ly && pixel >= self.window_x - 7
    }

    /// The background or window pixel at column `pixel` of line `ly`.
    pub open spec fn bg_pixel(&self, ly: u8, pixel: int) -> u32 {
        let window = self.uses_window(ly, pixel);
        let map: int = if (window && bit_of(self.lcd_control, 6)) || (!window && bit_of(self.lcd_control, 3)) {
            0x1C00
        } else {
            0x1800
        };
        let y: int = if window { ly - self.window_y } else { (ly + self.scroll_y) % 256 };
        let x: int = if window { pixel - (self.window_x - 7) } else { (pixel + self.scroll_x) % 256 };
        let index = self.vram@[map + (y / 8) * 32 + x / 8];
        let tile: int = if bit_of(self.lcd_control, 4) {
            index as int
        } else {
            (crate::alu::signed8(index) + 128) + 128
        };
        palette_color(self.bg_palette, self.tiles@[tile * 64 + (y % 8) * 8 + x % 8])
    }

    /// Draws the background and window of line LY.
    fn render_tiles(&mut self)
        requires
            old(self).inv(),
            old(self).ly < 144,
        ensures
            *final(self) == (GPU { video_buffer: final(self).video_buffer, ..*old(self) }),
            final(self).video_buffer@.len() == FRAME_SIZE,
            forall|p: int| 0 <= p < 160 ==> #[trigger] final(self).video_buffer@[old(self).ly * 160 + p]
                == old(self).bg_pixel(old(self).ly, p),
            forall|i: int| 0 <= i < FRAME_SIZE && !(old(self).ly * 160 <= i < old(self).ly * 160 + 160)
                ==> #[trigger] final(self).video_buffer@[i] == old(self).video_buffer@[i],
    {
        let lcdc = self.lcd_control;
        let line_base: usize = self.ly as usize * 160;
        let mut pixel: usize = 0;
        while pixel < 160
            invariant
                old(self).inv(),
                old(self).ly < 144,
                line_base == old(self).ly * 160,
                lcdc == old(self).lcd_control,
                *self == (GPU { video_buffer: self.video_buffer, ..*old(self) }),
                self.video_buffer@.len() == FRAME_SIZE,
                pixel <= 160,
                forall|p: int| 0 <= p < pixel ==> #[trigger] self.video_buffer@[old(self).ly * 160 + p]
                    == old(self).bg_pixel(old(self).ly, p),
                forall|i: int| 0 <= i < FRAME_SIZE && !(old(self).ly * 160 <= i < old(self).ly * 160 + pixel)
                    ==> #[trigger] self.video_buffer@[i] == old(self).video_buffer@[i],
            decreases 160 - pixel,
        {
            let window = (lcdc >> 5u8) & 1 == 1 && self.window_y <= self.ly && pixel + 7 >= self.window_x as usize;
            let high_map = if window { (lcdc >> 6u8) & 1 == 1 } else { (lcdc >> 3u8) & 1 == 1 };
            let map: usize = if high_map { 0x1C00 } else { 0x1800 };
            let y: usize = if window {
                (self.ly - self.window_y) as usize
            } else {
                (self.ly as usize + self.scroll_y as usize) % 256
            };
            let x: usize = if window {
                pixel + 7 - self.window_x as usize
            } else {
                (pixel + self.scroll_x as usize) % 256
            };
            let index = self.vram[map + (y / 8) * 32 + x / 8];
            let tile: usize = if (lcdc >> 4u8) & 1 == 1 {
                index as usize
            } else if index < 128 {
                index as usize + 256
            } else {
                index as usize
            };
            assert(tile * 64 + (y % 8) * 8 + x % 8 < 24576) by (nonlinear_arith)
                requires tile < 384;
            let color = self.tiles[tile * 64 + (y % 8) * 8 + x % 8];
            let argb = GPU::get_color(self.bg_palette, color);
            self.video_buffer.set(line_base + pixel, argb);
            assert(self.video_buffer@[old(self).ly * 160 + pixel as int] == old(self).bg_pixel(old(self).ly, pixel as int));
            pixel = pixel + 1;
        }
    }

    /// Draws the sprites that cross line LY, in OAM order, each over what
    /// is there already.
    fn render_sprites(&mut self)
        requires
            old(self).inv(),
            old(self).ly < 144,
        ensures
            *final(self) == (GPU { video_buffer: final(self).video_buffer, ..*old(self) }),
            final(self).video_buffer@.len() == FRAME_SIZE,
            forall|x: int| 0 <= x < 160 ==> #[trigger] final(self).video_buffer@[old(self).ly * 160 + x]
                == old(self).draw_sprites(old(self).ly, line_of(old(self).video_buffer@, old(self).ly), 40)[x],
            forall|i: int| 0 <= i < FRAME_SIZE && !(old(self).ly * 160 <= i < old(self).ly * 160 + 160)
                ==> #[trigger] final(self).video_buffer@[i] == old(self).video_buffer@[i],
    {
        let height: u8 = if (self.lcd_control >> 2u8) & 1 == 1 { 16 } else { 8 };
        let line_base: usize = self.ly as usize * 160;
        let ghost line0 = line_of(old(self).video_buffer@, old(self).ly);
        let mut k: usize = 0;
        while k < SPRITE_COUNT
            invariant
                old(self).inv(),
                old(self).ly < 144,
                line_base == old(self).ly * 160,
                height as int == sprite_height(old(self).lcd_control),
                line0 == line_of(old(self).video_buffer@, old(self).ly),
                *self == (GPU { video_buffer: self.video_buffer, ..*old(self) }),
                self.video_buffer@.len() == FRAME_SIZE,
                k <= SPRITE_COUNT,
                forall|x: int| 0 <= x < 160 ==> #[trigger] self.video_buffer@[old(self).ly * 160 + x]
                    == old(self).draw_sprites(old(self).ly, line0, k as nat)[x],
                forall|i: int| 0 <= i < FRAME_SIZE && !(old(self).ly * 160 <= i < old(self).ly * 160 + 160)
                    ==> #[trigger] self.video_buffer@[i] == old(self).video_buffer@[i],
            decreases SPRITE_COUNT - k,
        {
            let ghost before = old(self).draw_sprites(old(self).ly, line0, k as nat);
            let sprite = self.sprites[k];
            let ly = self.ly as usize;
            let top = sprite.y as usize;
            if top <= ly && ly < top + height as usize {
                let mut row = ly - top;
                if sprite.y_flip {
                    row = (height as usize - 1) - row;
                }
                let tile: usize = if height == 16 {
                    (sprite.tile_index as usize / 2) * 2 + row / 8
                } else {
                    sprite.tile_index as usize
                };
                let palette = if sprite.palette { self.obj_palette_1 } else { self.obj_palette_0 };
                let mut column: usize = 0;
                while column < 8
                    invariant
                        old(self).inv(),
                        old(self).ly < 144,
                        line_base == old(self).ly * 160,
                        k < SPRITE_COUNT,
                        sprite == old(self).sprites@[k as int],
                        sprite.y <= old(self).ly < sprite.y + sprite_height(old(self).lcd_control),
                        row as int == (if sprite.y_flip {
                            sprite_height(old(self).lcd_control) - 1 - (old(self).ly - sprite.y)
                        } else {
                            old(self).ly - sprite.y
                        }),
                        tile as int == (if sprite_height(old(self).lcd_control) == 16 {
                            (sprite.tile_index / 2) * 2 + row / 8
                        } else {
                            sprite.tile_index as int
                        }),
                        palette == (if sprite.palette { old(self).obj_palette_1 } else { old(self).obj_palette_0 }),
                        tile < 384,
                        row < 16,
                        *self == (GPU { video_buffer: self.video_buffer, ..*old(self) }),
                        self.video_buffer@.len() == FRAME_SIZE,
                        column <= 8,
                        forall|x: int| 0 <= x < 160 ==> #[trigger] self.video_buffer@[old(self).ly * 160 + x] == (
                            if sprite.x <= x < sprite.x + column {
                                old(self).draw_sprite(old(self).ly, before, k as int)[x]
                            } else {
                                before[x]
                            }),
                        forall|i: int| 0 <= i < FRAME_SIZE && !(old(self).ly * 160 <= i < old(self).ly * 160 + 160)
                            ==> #[trigger] self.video_buffer@[i] == old(self).video_buffer@[i],
                    decreases 8 - column,
                {
                    let x = if sprite.x_flip { 7 - column } else { column };
                    assert(tile * 64 + (row % 8) * 8 + x < 24576) by (nonlinear_arith)
                        requires tile < 384, x < 8;
                    let color = self.tiles[tile * 64 + (row % 8) * 8 + x];
                    let screen_x = sprite.x as usize + column;
                    if color != 0 && screen_x < 160 {
                        let argb = GPU::get_color(palette, color);
                        if !sprite.bg_priority || self.video_buffer[line_base + screen_x] == COLOR_WHITE {
                            self.video_buffer.set(line_base + screen_x, argb);
                        }
                    }
                    column = column + 1;
                }
            }
            assert forall|x: int| 0 <= x < 160 implies #[trigger] self.video_buffer@[old(self).ly * 160 + x]
                == old(self).draw_sprites(old(self).ly, line0, (k + 1) as nat)[x] by {
                assert(old(self).draw_sprites(old(self).ly, line0, (k + 1) as nat) == old(self).draw_sprite(old(self).ly, before, k as int));
            }
            k = k + 1;
        }
    }

    /// The color index sprite `k` puts at column `x` of line LY; 0 (nothing)
    /// where it does not reach.
    pub open spec fn sprite_pixel(&self, ly: u8, k: int, x: int) -> u8 {
        let s = self.sprites@[k];
        let h = sprite_height(self.lcd_control);
        let column = x - s.x;
        if !(s.y <= ly < s.y + h) || !(0 <= column < 8) {
            0
        } else {
            let line = ly - s.y;
            let row = if s.y_flip { h - 1 - line } else { line };
            let tile = if h == 16 { (s.tile_index / 2) * 2 + row / 8 } else { s.tile_index as int };
            let tx = if s.x_flip { 7 - column } else { column };
            self.tiles@[tile * 64 + (row % 8) * 8 + tx]
        }
    }

    /// Line LY after sprite `k` is drawn over `line`: color index 0 is
    /// transparent, and a sprite behind the background shows only over white.
    pub open spec fn draw_sprite(&self, ly: u8, line: Seq<u32>, k: int) -> Seq<u32> {
        let s = self.sprites@[k];
        let palette = if s.palette { self.obj_palette_1 } else { self.obj_palette_0 };
        Seq::new(
            160,
            |x: int|
                if self.sprite_pixel(ly, k, x) != 0 && (!s.bg_priority || line[x] == COLOR_WHITE) {
                    palette_color(palette, self.sprite_pixel(ly, k, x))
                } else {
                    line[x]
                },
        )
    }

    /// Line LY after the first `n` sprites are drawn over `line`, in order.
    pub open spec fn draw_sprites(&self, ly: u8, line: Seq<u32>, n: nat) -> Seq<u32>
        decreases n,
    {
        if n == 0 {
            line
        } else {
            self.draw_sprite(ly, self.draw_sprites(ly, line, (n - 1) as nat), n - 1)
        }
    }

    /// Line `ly` once the background is drawn: the background and window
    /// pixels when LCDC bit 0 is set, else the line as it stands.
    pub open spec fn background_line(&self, frame: Seq<u32>, ly: u8) -> Seq<u32> {
        if bit_of(self.lcd_control, 0) {
            Seq::new(160, |p: int| self.bg_pixel(ly, p))
        } else {
            line_of(frame, ly)
        }
    }

    /// Line `ly` of `frame` once drawn: the background line, then, when LCDC bit 1 is
    /// set, the sprites over it.
    pub open spec fn scanline(&self, frame: Seq<u32>, ly: u8) -> Seq<u32> {
        if bit_of(self.lcd_control, 1) {
            self.draw_sprites(ly, self.background_line(frame, ly), 40)
        } else {
            self.background_line(frame, ly)
        }
    }

    /// The frame after `remaining` cycles of the scanline machine from the
    /// start of `mode` on line `ly`: each line is drawn as it leaves mode
    /// VRAM, over the frame as it then stands.
    pub open spec fn frame_after(&self, frame: Seq<u32>, mode: u8, ly: u8, remaining: int) -> Seq<u32>
        decreases remaining,
    {
        if remaining < mode_length(mode) || mode_length(mode) <= 0 {
            frame
        } else {
            let next = if mode == MODE_VRAM { with_line(frame, ly, self.scanline(frame, ly)) } else { frame };
            let t = transition(self.lcd_status & 0x78, self.ly_compare, mode, ly);
            self.frame_after(next, t.0, t.1, remaining - mode_length(mode))
        }
    }

    /// Draws line LY: background when LCDC bit 0 is set, sprites when bit 1 is.
    fn render_scanline(&mut self)
        requires
            old(self).inv(),
            old(self).ly < 144,
        ensures
            *final(self) == (GPU { video_buffer: final(self).video_buffer, ..*old(self) }),
            final(self).video_buffer@.len() == FRAME_SIZE,
            forall|p: int| 0 <= p < 160 ==> #[trigger] final(self).video_buffer@[old(self).ly * 160 + p]
                == old(self).scanline(old(self).video_buffer@, old(self).ly)[p],
            forall|i: int| 0 <= i < FRAME_SIZE && !(old(self).ly * 160 <= i < old(self).ly * 160 + 160)
                ==> #[trigger] final(self).video_buffer@[i] == old(self).video_buffer@[i],
    {
        let ghost start = *self;
        if (self.lcd_control >> 0u8) & 1 == 1 {
            self.render_tiles();
        }
        let ghost mid = *self;
        assert(line_of(mid.video_buffer@, mid.ly) =~= old(self).background_line(old(self).video_buffer@, old(self).ly));
        if (self.lcd_control >> 1u8) & 1 == 1 {
            proof { lemma_draw_sprites_frame(mid, start, mid.ly, line_of(mid.video_buffer@, mid.ly), 40); }
            self.render_sprites();
        }
    }

    fn set_mode(&mut self, mode: u8)
        requires
            mode < 4,
        ensures
            *final(self) == (GPU { lcd_status: (old(self).lcd_status & 0xFC) | mode, ..*old(self) }),
            final(self).mode_spec() == mode,
            bit_of(final(self).lcd_status, 2) == bit_of(old(self).lcd_status, 2),
    {
        proof { lemma_set_mode(self.lcd_status, mode); }
        self.lcd_status = (self.lcd_status & 0xFC) | mode;
    }

    /// Ends the current mode and enters the next one; returns the interrupt
    /// bits it raises (bit 0 VBLANK, bit 1 LCD STAT).
    fn advance_mode(&mut self) -> (r: u8)
        requires
            old(self).inv(),
            old(self).cycles == 0,
            old(self).mode_spec() == MODE_VBLANK ==> old(self).ly >= 144,
        ensures
            final(self).inv(),
            final(self).cycles == 0,
            final(self).mode_spec() == MODE_VBLANK ==> final(self).ly >= 144,
            final(self).same_registers(old(self)),
            final(self).vram == old(self).vram,
            final(self).oam == old(self).oam,
            final(self).tiles == old(self).tiles,
            final(self).sprites == old(self).sprites,
            r < 4,
            final(self).lcd_status & 0x78 == old(self).lcd_status & 0x78,
            final(self).video_buffer@ == (if old(self).mode_spec() == MODE_VRAM {
                with_line(old(self).video_buffer@, old(self).ly, old(self).scanline(old(self).video_buffer@, old(self).ly))
            } else {
                old(self).video_buffer@
            }),
            (final(self).mode_spec(), final(self).ly, r % 2 == 1, r >= 2) == transition(
                old(self).lcd_status & 0x78,
                old(self).ly_compare,
                old(self).mode_spec(),
                old(self).ly,
            ),
    {
        let status = self.lcd_status;
        let mode = self.mode();
        let mut vblank = false;
        let mut stat = false;
        proof {
            lemma_enables(status, 0);
            lemma_enables(status, 1);
            lemma_enables(status, 2);
            lemma_enables(status, 3);
            lemma_enables((status & 0xFC) | 0, 0);
            lemma_enables((status & 0xFC) | 1, 0);
            lemma_enables((status & 0xFC) | 2, 0);
            lemma_enables((status & 0xFC) | 3, 0);
        }
        if mode == MODE_OAM {
            self.set_mode(MODE_VRAM);
        } else if mode == MODE_VRAM {
            self.set_mode(MODE_HBLANK);
            stat = (status >> 3u8) & 1 == 1;
            let ghost mid = *self;
            proof { lemma_scanline_frame(mid, *old(self), old(self).video_buffer@, old(self).ly); }
            self.render_scanline();
            assert(self.video_buffer@ =~= with_line(
                old(self).video_buffer@,
                old(self).ly,
                old(self).scanline(old(self).video_buffer@, old(self).ly),
            ));
        } else if mode == MODE_HBLANK {
            self.ly = self.ly + 1;
            if self.ly >= 144 {
                self.set_mode(MODE_VBLANK);
                vblank = true;
                stat = (status >> 4u8) & 1 == 1;
            } else {
                self.set_mode(MODE_OAM);
                stat = (status >> 5u8) & 1 == 1;
            }
            proof { lemma_coincidence(self.lcd_status, self.ly == self.ly_compare); }
            let c = self.compare_ly_lyc();
            stat = stat || c == 2;
        } else {
            self.ly = self.ly + 1;
            if self.ly == 154 {
                self.ly = 0;
                self.set_mode(MODE_OAM);
                stat = (status >> 5u8) & 1 == 1;
            }
            proof { lemma_coincidence(self.lcd_status, self.ly == self.ly_compare); }
            let c = self.compare_ly_lyc();
            stat = stat || c == 2;
        }
        interrupt_bits(vblank, stat)
    }

    /// What `update_graphics(cycles)` leaves and returns: the pipeline
    /// `next` and the interrupt bits `r`.
    #[verifier::opaque]
    pub open spec fn updated(&self, cycles: u16, next: GPU, r: u8) -> bool {
        &&& next.inv()
        &&& next.lcd_status & 0x78 == self.lcd_status & 0x78
        &&& next.same_registers(self)
        &&& next.vram == self.vram
        &&& next.oam == self.oam
        &&& next.tiles == self.tiles
        &&& next.sprites == self.sprites
        &&& r < 4
        &&& (!bit_of(self.lcd_control, 7) ==> {
            &&& r == 0
            &&& next.ly == 0
            &&& next.mode_spec() == MODE_VBLANK
            &&& next.cycles == 0
            &&& next.video_buffer == self.video_buffer
        })
        &&& (bit_of(self.lcd_control, 7) ==> {
            let idle = self.mode_spec() == MODE_VBLANK && self.ly < 144;
            let start = if idle { MODE_OAM } else { self.mode_spec() };
            let res = scan(self.lcd_status & 0x78, self.ly_compare, start, self.ly, self.cycles + cycles);
            &&& next.mode_spec() == res.0
            &&& next.ly == res.1
            &&& next.cycles == res.2
            &&& next.video_buffer@ == self.frame_after(self.video_buffer@, start, self.ly, self.cycles + cycles)
            &&& (r % 2 == 1) == res.3
            &&& (r >= 2) == (res.4 || (idle && bit_of(self.lcd_status, 5)))
        })
    }

    /// Advances the scanline machine by `cycles` master cycles, drawing each
    /// line as it ends its VRAM mode; returns the interrupt bits raised
    /// (bit 0 VBLANK, bit 1 LCD STAT). With the LCD off (LCDC bit 7 clear)
    /// it holds line 0 in mode VBLANK and raises nothing.
    pub fn update_graphics(&mut self, cycles: u16) -> (r: u8)
        requires
            old(self).inv(),
        ensures
            final(self).inv(),
            r < 4,
            old(self).updated(cycles, *final(self), r),
    {
        proof { reveal(GPU::updated); }
        if !self.lcd_enabled() {
            self.cycles = 0;
            self.ly = 0;
            proof { lemma_enables(self.lcd_status, MODE_VBLANK); }
            self.set_mode(MODE_VBLANK);
            proof {
                lemma_coincidence(self.lcd_status, self.ly == self.ly_compare);
                lemma_enables(self.lcd_status, 0);
            }
            self.compare_ly_lyc();
            return 0;
        }
        let mut vblank = false;
        let mut stat = false;
        let ghost enables = self.lcd_status & 0x78;
        proof { lemma_enables(self.lcd_status, MODE_OAM); }
        if self.mode() == MODE_VBLANK && self.ly < 144 {
            self.set_mode(MODE_OAM);
            stat = (self.lcd_status >> 5u8) & 1 == 1;
        }
        let mut remaining: u32 = self.cycles as u32 + cycles as u32;
        let ghost target = scan(enables, self.ly_compare, self.mode_spec(), self.ly, remaining as int);
        let ghost target_frame = old(self).frame_after(self.video_buffer@, self.mode_spec(), self.ly, remaining as int);
        let ghost idle_stat = stat;
        self.cycles = 0;
        while remaining >= self.current_mode_length()
            invariant
                self.lcd_status & 0x78 == enables,
                enables == old(self).lcd_status & 0x78,
                old(self).frame_after(self.video_buffer@, self.mode_spec(), self.ly, remaining as int) == target_frame,
                ({
                    let cur = scan(enables, self.ly_compare, self.mode_spec(), self.ly, remaining as int);
                    &&& cur.0 == target.0
                    &&& cur.1 == target.1
                    &&& cur.2 == target.2
                    &&& (vblank || cur.3) == target.3
                    &&& (stat || cur.4) == (target.4 || idle_stat)
                }),
                self.inv(),
                self.cycles == 0,
                self.mode_spec() == MODE_VBLANK ==> self.ly >= 144,
                self.same_registers(old(self)),
                self.vram == old(self).vram,
                self.oam == old(self).oam,
                self.tiles == old(self).tiles,
                self.sprites == old(self).sprites,
                remaining < 0x20000,
            decreases remaining,
        {
            remaining = remaining - self.current_mode_length();
            proof { lemma_scanline_frame(*self, *old(self), self.video_buffer@, self.ly); }
            let bits = self.advance_mode();
            vblank = vblank || bits % 2 == 1;
            stat = stat || bits >= 2;
        }
        self.cycles = remaining as u16;
        proof { reveal(GPU::updated); }
        interrupt_bits(vblank, stat)
    }

    fn current_mode_length(&self) -> (r: u32)
        ensures
            r == mode_length(self.mode_spec()),
            r >= 80,
    {
        let mode = self.mode();
        if mode == MODE_OAM {
            80
        } else if mode == MODE_VRAM {
            172
        } else if mode == MODE_HBLANK {
            200
        } else {
            456
        }
    }
}

/// The interrupt request bits: bit 0 VBLANK, bit 1 LCD STAT.
fn interrupt_bits(vblank: bool, stat: bool) -> (r: u8)
    ensures
        r < 4,
        (r % 2 == 1) == vblank,
        (r >= 2) == stat,
{
    (if vblank { 1u8 } else { 0u8 }) + (if stat { 2u8 } else { 0u8 })
}

/// In every state the pipeline can reach (all its operations keep `inv`):
/// LY is below 154, STAT bits 0-1 are the mode, VBLANK is exactly the mode
/// of lines 144-153 (but for line 0 while the LCD is held off), and STAT
/// bit 2 says whether LY equals LYC.
pub proof fn lemma_stat_mode_and_ly(g: GPU)
    requires
        g.inv(),
    ensures
        g.ly < 154,
        g.lcd_status & 3 == g.mode_spec(),
        g.ly >= 144 ==> g.mode_spec() == MODE_VBLANK,
        g.mode_spec() == MODE_VBLANK ==> g.ly >= 144 || (g.ly == 0 && g.cycles == 0),
        bit_of(g.lcd_status, 2) == (g.ly == g.ly_compare),
{
}

/// Sprite drawing depends on the sprites, the tiles, LCDC and the object
/// palettes alone.
pub proof fn lemma_draw_sprites_frame(g1: GPU, g2: GPU, ly: u8, line: Seq<u32>, n: nat)
    requires
        g1.sprites@ == g2.sprites@,
        g1.tiles@ == g2.tiles@,
        g1.lcd_control == g2.lcd_control,
        g1.obj_palette_0 == g2.obj_palette_0,
        g1.obj_palette_1 == g2.obj_palette_1,
        n <= 40,
    ensures
        g1.draw_sprites(ly, line, n) == g2.draw_sprites(ly, line, n),
    decreases n,
{
    if n > 0 {
        lemma_draw_sprites_frame(g1, g2, ly, line, (n - 1) as nat);
        let prev = g1.draw_sprites(ly, line, (n - 1) as nat);
        assert(g1.draw_sprite(ly, prev, n - 1) =~= g2.draw_sprite(ly, prev, n - 1));
    }
}

/// A drawn line depends on the registers, VRAM, the tiles and the sprites
/// alone, besides the frame it is drawn over.
pub proof fn lemma_scanline_frame(g1: GPU, g2: GPU, frame: Seq<u32>, ly: u8)
    requires
        g1.same_registers(&g2),
        g1.vram@ == g2.vram@,
        g1.sprites@ == g2.sprites@,
        g1.tiles@ == g2.tiles@,
    ensures
        g1.scanline(frame, ly) == g2.scanline(frame, ly),
{
    assert(g1.background_line(frame, ly) =~= g2.background_line(frame, ly));
    lemma_draw_sprites_frame(g1, g2, ly, g1.background_line(frame, ly), 40);
}

} // verus!
