use gameboy::bits::{Register, SetBit, TestBit, ToggleBit, CarryTest};
use gameboy::cartridge::{get_ram_size, get_rom_size, load_rom, Cartridge, CartridgeError, MbcKind};
use gameboy::cpu::{CpuError, CPU};
use gameboy::emulator::Emulator;
use gameboy::gpu::{GPU, COLOR_BLACK, COLOR_DARK_GRAY, COLOR_LIGHT_GRAY, COLOR_WHITE};
use gameboy::joypad::{JoyPad, KEY_A, KEY_RIGHT};
use gameboy::rtc::RTC;

fn rom_image(kind: u8, size_code: u8, ram_code: u8) -> Vec<u8> {
    let len = 0x8000usize << size_code;
    let mut rom = vec![0u8; len];
    rom[0x147] = kind;
    rom[0x148] = size_code;
    rom[0x149] = ram_code;
    rom
}

fn machine_with(rom: Vec<u8>) -> Emulator {
    let mut emu = Emulator::new();
    emu.load_rom(rom).unwrap();
    emu
}

#[test]
fn register_pair_round_trip() {
    for w in [0x0000u16, 0x1234, 0xABCD, 0xFFFF, 0x00FF, 0xFF00] {
        assert_eq!(u16::from_bytes(w.hi(), w.lo()), w);
    }
    let w = u16::from_bytes(0xDE, 0xAD);
    assert_eq!(w, 0xDEAD);
    assert_eq!(w.hi(), 0xDE);
    assert_eq!(w.lo(), 0xAD);
    let mut x: u16 = 0x1234;
    x.set_hi(0xAB);
    assert_eq!(x, 0xAB34);
    x.set_lo(0xCD);
    assert_eq!(x, 0xABCD);
}

#[test]
fn bit_helpers() {
    let mut v: u8 = 0b1010_0000;
    assert!(v.test_bit(7));
    assert!(!v.test_bit(6));
    v.set_bit(0);
    assert_eq!(v, 0b1010_0001);
    v.reset_bit(7);
    assert_eq!(v, 0b0010_0001);
    v.toggle_bit(4, true);
    assert_eq!(v, 0b0011_0001);
    v.toggle_bit(0, false);
    assert_eq!(v, 0b0011_0000);
    assert!(0x8000u16.test_bit(0) == false);
    assert!(0x0FFFu16.test_add_carry_bit(0x0001, 11));
    assert!(!0x0FFEu16.test_add_carry_bit(0x0001, 11));
    assert!(0x000Fu16.test_add_carry_bit(0x0001, 3));
}

#[test]
fn rotate_left_then_right_restores_byte_and_carry() {
    for v in [0x00u8, 0x01, 0x80, 0x81, 0x5A, 0xFF] {
        for f in [0x00u8, 0x10] {
            let mut cpu = CPU::new();
            cpu.f = f;
            let r = cpu.rotate_left(v, false);
            let back = cpu.rotate_right(r, false);
            assert_eq!(back, v);
            assert_eq!(cpu.f & 0x10, f & 0x10);
            let mut cpu = CPU::new();
            let r = cpu.rotate_left_carry(v, false);
            assert_eq!(cpu.rotate_right_carry(r, false), v);
        }
    }
}

#[test]
fn div_write_then_read_is_zero() {
    let mut emu = machine_with(rom_image(0x00, 0, 0));
    emu.update_timers(1000);
    emu.write_memory(0xFF04, 0x77);
    assert_eq!(emu.read_memory(0xFF04), 0);
}

#[test]
fn inc_dec_boundaries() {
    let mut cpu = CPU::new();
    cpu.f = 0x00;
    let r = cpu.inc_8bit(0xFF);
    assert_eq!(r, 0x00);
    assert_eq!(cpu.f, 0xA0);
    let mut cpu = CPU::new();
    cpu.f = 0x00;
    let r = cpu.dec_8bit(0x00);
    assert_eq!(r, 0xFF);
    assert_eq!(cpu.f, 0x60);
    let mut cpu = CPU::new();
    cpu.f = 0x10;
    assert_eq!(cpu.inc_8bit(0x0F), 0x10);
    assert_eq!(cpu.f, 0x30);
}

#[test]
fn add_hl_hl_overflow() {
    let mut cpu = CPU::new();
    cpu.h = 0x80;
    cpu.l = 0x00;
    cpu.f = 0x80;
    cpu.add_16bit(cpu.hl());
    assert_eq!(cpu.hl(), 0x0000);
    assert_eq!(cpu.f, 0x90);
}

#[test]
fn jr_minus_128() {
    let mut rom = rom_image(0x00, 0, 0);
    rom[0x1000] = 0x18;
    rom[0x1001] = 0x80;
    let mut emu = machine_with(rom);
    emu.cpu.pc = 0x1000;
    assert_eq!(emu.execute_next_opcode(), Ok(12));
    assert_eq!(emu.cpu.pc, 0x1000 - 126);
}

#[test]
fn nombc_frame_from_power_on() {
    let mut emu = machine_with(rom_image(0x00, 0, 0));
    assert_eq!(emu.cpu.a, 0x01);
    assert_eq!(emu.cpu.f, 0xB0);
    assert_eq!(emu.cpu.bc(), 0x0013);
    assert_eq!(emu.cpu.de(), 0x00D8);
    assert_eq!(emu.cpu.hl(), 0x014D);
    assert_eq!(emu.cpu.sp, 0xFFFE);
    assert_eq!(emu.cpu.pc, 0x0100);
    let ran = emu.tick(69905).unwrap();
    assert!(ran >= 69905);
    assert!(emu.cpu.pc > 0x0100);
}

#[test]
fn tick_clamps_to_one_frame() {
    let mut emu = machine_with(rom_image(0x00, 0, 0));
    let ran = emu.tick(1_000_000).unwrap();
    assert!(ran >= 69905 && ran < 69905 + 52);
}

#[test]
fn timer_counts_four_in_64_cycles() {
    let mut emu = machine_with(rom_image(0x00, 0, 0));
    emu.write_memory(0xFF07, 0x05);
    let tima = emu.read_memory(0xFF05);
    let iflag = emu.read_memory(0xFF0F);
    emu.update_timers(64);
    assert_eq!(emu.read_memory(0xFF05), tima + 4);
    assert_eq!(emu.read_memory(0xFF0F), iflag);
}

#[test]
fn timer_overflow_reloads_and_requests() {
    let mut emu = machine_with(rom_image(0x00, 0, 0));
    emu.write_memory(0xFF0F, 0x00);
    emu.write_memory(0xFF05, 0xFF);
    emu.write_memory(0xFF06, 0xAB);
    emu.write_memory(0xFF07, 0x05);
    emu.update_timers(16);
    assert_eq!(emu.read_memory(0xFF05), 0xAB);
    assert_eq!(emu.read_memory(0xFF0F) & 0x04, 0x04);
}

#[test]
fn timer_thresholds() {
    let mut t = RTC::new();
    for (tac, th) in [(0x04u8, 1024u32), (0x05, 16), (0x06, 64), (0x07, 256)] {
        t.write(0xFF07, tac);
        assert_eq!(t.get_clock_frequency(), th);
        assert!(t.clock_enabled());
    }
    t.write(0xFF07, 0x00);
    assert!(!t.clock_enabled());
    let tima = t.tima;
    assert!(!t.update_timers(5000));
    assert_eq!(t.tima, tima);
}

#[test]
fn full_frame_draws_everything_and_one_vblank() {
    let mut emu = machine_with(rom_image(0x00, 0, 0));
    assert_eq!(emu.read_memory(0xFF40), 0x91);
    emu.write_memory(0xFF42, 0x93);
    assert_eq!(emu.mmu.gpu.ly, 0);
    assert_eq!(emu.mmu.gpu.mode(), 2);
    for p in emu.mmu.gpu.video_buffer.iter_mut() {
        *p = 0x0012_3456;
    }
    let mut vblanks = 0;
    let mut cycles = 0u32;
    while cycles < 70224 {
        let bits = emu.mmu.gpu.update_graphics(4);
        if bits & 1 == 1 {
            vblanks += 1;
        }
        assert_eq!(emu.read_memory(0xFF41) & 0x03, emu.mmu.gpu.mode());
        assert!(emu.mmu.gpu.ly < 154);
        cycles += 4;
    }
    assert_eq!(vblanks, 1);
    assert!(emu.mmu.gpu.video_buffer.iter().all(|&p| p == COLOR_WHITE));
}

#[test]
fn vblank_raises_interrupt_flag() {
    let mut emu = machine_with(rom_image(0x00, 0, 0));
    emu.write_memory(0xFF0F, 0x00);
    for _ in 0..(144 * 452 / 4) {
        emu.update_graphics(4);
    }
    assert_eq!(emu.read_memory(0xFF0F) & 0x01, 0x01);
    assert!(emu.mmu.gpu.ly >= 144);
    assert_eq!(emu.read_memory(0xFF41) & 0x03, 1);
}

#[test]
fn lcd_off_holds_line_zero() {
    let mut emu = machine_with(rom_image(0x00, 0, 0));
    emu.update_graphics(1000);
    emu.write_memory(0xFF40, 0x11);
    assert_eq!(emu.update_graphics(4), 0);
    assert_eq!(emu.read_memory(0xFF44), 0);
    assert_eq!(emu.read_memory(0xFF41) & 0x03, 1);
}

#[test]
fn lyc_coincidence() {
    let mut emu = machine_with(rom_image(0x00, 0, 0));
    emu.write_memory(0xFF45, 0x00);
    assert_eq!(emu.read_memory(0xFF41) & 0x04, 0x04);
    emu.write_memory(0xFF45, 0x05);
    assert_eq!(emu.read_memory(0xFF41) & 0x04, 0x00);
    emu.write_memory(0xFF44, 0x42);
    assert_eq!(emu.read_memory(0xFF44), 0);
}

#[test]
fn oam_dma_copies_page() {
    let mut emu = machine_with(rom_image(0x00, 0, 0));
    for i in 0..0xA0u16 {
        emu.write_memory(0xC000 + i, (i as u8).wrapping_mul(3).wrapping_add(1));
    }
    emu.write_memory(0xFF46, 0xC0);
    for i in 0..0xA0u16 {
        assert_eq!(emu.read_memory(0xFE00 + i), (i as u8).wrapping_mul(3).wrapping_add(1));
    }
    assert_eq!(emu.read_memory(0xFF46), 0xC0);
}

#[test]
fn joypad_buttons_selected_press_a() {
    let mut emu = machine_with(rom_image(0x00, 0, 0));
    emu.write_memory(0xFF0F, 0x00);
    emu.write_memory(0xFF00, 0x10);
    emu.on_key_pressed(KEY_A);
    assert_eq!(emu.read_memory(0xFF0F) & 0x10, 0x10);
    assert_eq!(emu.read_memory(0xFF00), 0x1E);
    emu.on_key_released(KEY_A);
    assert_eq!(emu.read_memory(0xFF00), 0x1F);
}

#[test]
fn joypad_unselected_row_no_interrupt() {
    let mut pad = JoyPad::new();
    pad.write(0xFF00, 0x10);
    assert!(!pad.on_key_pressed(KEY_RIGHT));
    assert!(!pad.on_key_pressed(KEY_RIGHT));
    pad.write(0xFF00, 0x20);
    assert_eq!(pad.get_joypad_state(), 0x2E);
    pad.write(0xFF00, 0x30);
    assert_eq!(pad.get_joypad_state(), 0x3F);
}

#[test]
fn pop_af_clears_low_nibble() {
    let mut emu = machine_with(rom_image(0x00, 0, 0));
    emu.push_stack(0x12FF);
    assert_eq!(emu.execute(0xF1), Ok(12));
    assert_eq!(emu.cpu.a, 0x12);
    assert_eq!(emu.cpu.f, 0xF0);
    assert_eq!(emu.cpu.f & 0x0F, 0);
}

#[test]
fn invalid_opcode_is_refused() {
    let mut rom = rom_image(0x00, 0, 0);
    rom[0x100] = 0xD3;
    let mut emu = machine_with(rom);
    let before = emu.cpu;
    assert_eq!(emu.execute_next_opcode(), Err(CpuError::InvalidOpcode { opcode: 0xD3, pc: 0x100 }));
    assert_eq!(emu.cpu.a, before.a);
    for op in [0xDBu8, 0xDD, 0xE3, 0xE4, 0xEB, 0xEC, 0xED, 0xF4, 0xFC, 0xFD] {
        assert!(emu.execute(op).is_err());
    }
    assert!(emu.execute(0x00).is_ok());
}

#[test]
fn mbc1_bank_stays_in_rom() {
    let mut emu = machine_with(rom_image(0x01, 0, 0));
    emu.write_memory(0x2000, 0x1F);
    let c = emu.mmu.cartrige.as_ref().unwrap();
    assert!(c.rom_bank >= 1);
    assert!(c.rom_bank * 0x4000 + 0x3FFF < c.rom.len());
    emu.write_memory(0x2000, 0x00);
    assert_eq!(emu.mmu.cartrige.as_ref().unwrap().rom_bank, 1);
}

#[test]
fn mbc1_switches_banks() {
    let mut rom = rom_image(0x01, 2, 0);
    for bank in 0..8usize {
        rom[bank * 0x4000 + 0x10] = bank as u8;
    }
    let mut emu = machine_with(rom);
    assert_eq!(emu.read_memory(0x4010), 1);
    emu.write_memory(0x2000, 0x05);
    assert_eq!(emu.read_memory(0x4010), 5);
    assert_eq!(emu.read_memory(0x0010), 0);
    emu.write_memory(0x2000, 0x0A);
    assert_eq!(emu.read_memory(0x4010), 2);
}

#[test]
fn mbc5_bank_zero_is_legal() {
    let mut rom = rom_image(0x19, 1, 0);
    rom[0x10] = 0x77;
    rom[0x4010] = 0x11;
    let mut emu = machine_with(rom);
    emu.write_memory(0x2000, 0x00);
    assert_eq!(emu.read_memory(0x4010), 0x77);
    emu.write_memory(0x2000, 0x01);
    assert_eq!(emu.read_memory(0x4010), 0x11);
}

#[test]
fn external_ram_gated_and_banked() {
    let mut emu = machine_with(rom_image(0x03, 0, 3));
    emu.write_memory(0xA000, 0x42);
    assert_eq!(emu.read_memory(0xA000), 0xFF);
    emu.write_memory(0x0000, 0x0A);
    emu.write_memory(0xA000, 0x42);
    assert_eq!(emu.read_memory(0xA000), 0x42);
    emu.write_memory(0x6000, 0x01);
    emu.write_memory(0x4000, 0x02);
    assert_eq!(emu.read_memory(0xA000), 0x00);
    emu.write_memory(0xA000, 0x99);
    emu.write_memory(0x4000, 0x00);
    assert_eq!(emu.read_memory(0xA000), 0x42);
    let saved = emu.serialize_battery().unwrap();
    assert_eq!(saved.len(), 0x8000);
    assert_eq!(saved[0], 0x42);
    assert_eq!(saved[0x4000], 0x99);
}

#[test]
fn mbc2_nibble_ram_mirrors() {
    let mut emu = machine_with(rom_image(0x06, 1, 0));
    emu.write_memory(0x0000, 0x0A);
    emu.write_memory(0xA005, 0xF7);
    assert_eq!(emu.read_memory(0xA005), 0x07);
    assert_eq!(emu.read_memory(0xA205), 0x07);
    emu.write_memory(0x0100, 0x03);
    assert_eq!(emu.mmu.cartrige.as_ref().unwrap().rom_bank, 3);
    assert_eq!(emu.serialize_battery().unwrap().len(), 512);
}

#[test]
fn mbc3_clock_registers_pass_through() {
    let mut emu = machine_with(rom_image(0x10, 0, 2));
    emu.write_memory(0x0000, 0x0A);
    emu.write_memory(0x4000, 0x08);
    emu.write_memory(0xA000, 0x3B);
    emu.write_memory(0x4000, 0x0C);
    emu.write_memory(0xA000, 0x01);
    emu.write_memory(0x4000, 0x08);
    assert_eq!(emu.read_memory(0xA000), 0x3B);
    emu.write_memory(0x4000, 0x0C);
    assert_eq!(emu.read_memory(0xA000), 0x01);
    emu.write_memory(0x4000, 0x00);
    assert_eq!(emu.read_memory(0xA000), 0x00);
}

#[test]
fn battery_round_trip() {
    let mut emu = machine_with(rom_image(0x03, 0, 2));
    let data: Vec<u8> = (0..0x2000).map(|i| (i % 251) as u8).collect();
    assert!(emu.load_battery(data.clone()));
    assert_eq!(emu.serialize_battery().unwrap(), data);
    assert!(!emu.load_battery(vec![1, 2, 3]));
    assert_eq!(emu.serialize_battery().unwrap(), data);
}

#[test]
fn header_errors() {
    assert_eq!(load_rom(vec![0u8; 0x100]).err(), Some(CartridgeError::MalformedRom));
    assert_eq!(load_rom(rom_image(0x04, 0, 0)).err(), Some(CartridgeError::UnsupportedCartridge));
    let mut short = rom_image(0x00, 1, 0);
    short.truncate(0x8000);
    assert_eq!(load_rom(short).err(), Some(CartridgeError::MalformedRom));
    assert_eq!(load_rom(rom_image(0x01, 0, 1)).err(), Some(CartridgeError::MalformedRom));
    let mut bad_size = rom_image(0x00, 0, 0);
    bad_size[0x148] = 0x09;
    assert_eq!(load_rom(bad_size).err(), Some(CartridgeError::MalformedRom));
    let c = load_rom(rom_image(0x1B, 0, 4)).unwrap();
    assert_eq!(c.kind, MbcKind::Mbc5);
    assert_eq!(c.ram.len(), 0x20000);
    let mut emu = Emulator::new();
    assert!(emu.load_rom(rom_image(0xFF, 0, 0)).is_err());
    assert!(emu.mmu.cartrige.is_none());
}

#[test]
fn header_size_tables() {
    assert_eq!(get_rom_size(0), Some(0x8000));
    assert_eq!(get_rom_size(8), Some(0x800000));
    assert_eq!(get_rom_size(9), None);
    assert_eq!(get_ram_size(0), Some(0));
    assert_eq!(get_ram_size(1), None);
    assert_eq!(get_ram_size(2), Some(0x2000));
    assert_eq!(get_ram_size(3), Some(0x8000));
    assert_eq!(get_ram_size(4), Some(0x20000));
    assert_eq!(get_ram_size(5), Some(0x10000));
}

#[test]
fn echo_and_prohibited_regions() {
    let mut emu = machine_with(rom_image(0x00, 0, 0));
    emu.write_memory(0xE123, 0x5A);
    assert_eq!(emu.read_memory(0xC123), 0x5A);
    emu.write_memory(0xC456, 0xA5);
    assert_eq!(emu.read_memory(0xE456), 0xA5);
    emu.write_memory(0xFEA5, 0x12);
    assert_eq!(emu.read_memory(0xFEA5), 0x00);
    emu.write_memory(0x0150, 0x12);
    assert_eq!(emu.read_memory(0x0150), 0x00);
    let mut empty = Emulator::new();
    assert_eq!(empty.read_memory(0x0000), 0xFF);
    empty.write_memory(0xFF80, 0x33);
    assert_eq!(empty.read_memory(0xFF80), 0x33);
}

#[test]
fn write_back_is_no_op() {
    let mut emu = machine_with(rom_image(0x01, 1, 2));
    emu.write_memory(0xC010, 0x9C);
    emu.write_memory(0x0000, 0x0A);
    for address in [0x0010u16, 0x2000, 0x4010, 0x8010, 0xA010, 0xC010, 0xE010, 0xFE10, 0xFF05, 0xFF07, 0xFF0F, 0xFF40,
        0xFF41, 0xFF42, 0xFF45, 0xFF46, 0xFF47, 0xFF80, 0xFFFF, 0xFF10] {
        let v = emu.read_memory(address);
        emu.write_memory(address, v);
        assert_eq!(emu.read_memory(address), v);
        assert_eq!(emu.read_memory(address), emu.read_memory(address));
    }
}

#[test]
fn serial_bytes_reach_the_host() {
    let mut emu = machine_with(rom_image(0x00, 0, 0));
    emu.write_memory(0xFF01, b'H');
    emu.write_memory(0xFF01, b'i');
    assert_eq!(emu.take_serial_output(), b"Hi".to_vec());
    assert!(emu.take_serial_output().is_empty());
}

#[test]
fn alu_formulas() {
    let mut cpu = CPU::new();
    cpu.a = 0x3A;
    cpu.add_8bit(0xC6);
    assert_eq!((cpu.a, cpu.f), (0x00, 0xB0));
    cpu.a = 0x3E;
    cpu.sub_8bit(0x3E);
    assert_eq!((cpu.a, cpu.f), (0x00, 0xC0));
    cpu.a = 0x3E;
    cpu.sub_8bit(0x40);
    assert_eq!((cpu.a, cpu.f), (0xFE, 0x50));
    cpu.a = 0xE1;
    cpu.f = 0x10;
    cpu.add_8bit_carry(0x0F);
    assert_eq!((cpu.a, cpu.f), (0xF1, 0x20));
    cpu.a = 0x3B;
    cpu.f = 0x10;
    cpu.sub_8bit_carry(0x2A);
    assert_eq!((cpu.a, cpu.f), (0x10, 0x40));
    cpu.a = 0x5A;
    cpu.and_8bit(0x3F);
    assert_eq!((cpu.a, cpu.f), (0x1A, 0x20));
    cpu.a = 0x5A;
    cpu.or_8bit(0x00);
    assert_eq!((cpu.a, cpu.f), (0x5A, 0x00));
    cpu.a = 0xFF;
    cpu.xor_8bit(0xFF);
    assert_eq!((cpu.a, cpu.f), (0x00, 0x80));
    cpu.a = 0x3C;
    cpu.compare_8bit(0x2F);
    assert_eq!((cpu.a, cpu.f), (0x3C, 0x60));
}

#[test]
fn daa_after_bcd_add() {
    let mut rom = rom_image(0x00, 0, 0);
    rom[0x100] = 0xC6;
    rom[0x101] = 0x27;
    rom[0x102] = 0x27;
    let mut emu = machine_with(rom);
    emu.cpu.a = 0x15;
    emu.execute_next_opcode().unwrap();
    assert_eq!(emu.cpu.a, 0x3C);
    emu.execute_next_opcode().unwrap();
    assert_eq!(emu.cpu.a, 0x42);
    assert_eq!(emu.cpu.f & 0x10, 0);
}

#[test]
fn cb_table_examples() {
    let mut rom = rom_image(0x00, 0, 0);
    rom[0x100..0x10A].copy_from_slice(&[0xCB, 0x37, 0xCB, 0x7F, 0xCB, 0xBF, 0xCB, 0xC7, 0xCB, 0x3F]);
    let mut emu = machine_with(rom);
    emu.cpu.a = 0xF1;
    assert_eq!(emu.execute_next_opcode(), Ok(8));
    assert_eq!(emu.cpu.a, 0x1F);
    assert_eq!(emu.execute_next_opcode(), Ok(8));
    assert_eq!(emu.cpu.f & 0x80, 0x80);
    emu.execute_next_opcode().unwrap();
    emu.execute_next_opcode().unwrap();
    assert_eq!(emu.cpu.a, 0x1F);
    emu.execute_next_opcode().unwrap();
    assert_eq!(emu.cpu.a, 0x0F);
    assert_eq!(emu.cpu.f, 0x10);
}

#[test]
fn shifts_and_swap() {
    let mut cpu = CPU::new();
    assert_eq!(cpu.shift_left_arithmetic(0x81), 0x02);
    assert_eq!(cpu.f, 0x10);
    assert_eq!(cpu.shift_right_arithmetic(0x81), 0xC0);
    assert_eq!(cpu.f, 0x10);
    assert_eq!(cpu.shift_right_logical(0x01), 0x00);
    assert_eq!(cpu.f, 0x90);
    assert_eq!(cpu.swap_nibbles(0xAB), 0xBA);
    assert_eq!(cpu.f, 0x00);
    cpu.test_bit(0x08, 3);
    assert_eq!(cpu.f & 0x80, 0);
    assert_eq!(CPU::set_bit(0x00, 5), 0x20);
    assert_eq!(CPU::reset_bit(0xFF, 0), 0xFE);
}

#[test]
fn interrupt_service_priority() {
    let mut emu = machine_with(rom_image(0x00, 0, 0));
    emu.cpu.interrupts_enabled = true;
    emu.cpu.pc = 0x1234;
    emu.write_memory(0xFFFF, 0x1F);
    emu.write_memory(0xFF0F, 0x06);
    assert_eq!(emu.do_interrupts(), 20);
    assert_eq!(emu.cpu.pc, 0x48);
    assert!(!emu.cpu.interrupts_enabled);
    assert_eq!(emu.read_memory(0xFF0F), 0x04);
    assert_eq!(emu.pop_stack(), 0x1234);
    assert_eq!(emu.do_interrupts(), 0);
}

#[test]
fn halt_wakes_without_ime() {
    let mut emu = machine_with(rom_image(0x00, 0, 0));
    emu.cpu.halted = true;
    assert_eq!(emu.execute_next_opcode(), Ok(4));
    emu.write_memory(0xFFFF, 0x04);
    emu.request_interrupt(2);
    assert_eq!(emu.do_interrupts(), 0);
    assert!(!emu.cpu.halted);
}

#[test]
fn ei_takes_effect_after_next_instruction() {
    let mut rom = rom_image(0x00, 0, 0);
    rom[0x100] = 0xFB;
    rom[0x101] = 0x00;
    let mut emu = machine_with(rom);
    emu.execute_next_opcode().unwrap();
    assert!(!emu.cpu.interrupts_enabled);
    emu.execute_next_opcode().unwrap();
    assert!(emu.cpu.interrupts_enabled);
}

#[test]
fn call_and_return() {
    let mut rom = rom_image(0x00, 0, 0);
    rom[0x100..0x103].copy_from_slice(&[0xCD, 0x00, 0x20]);
    rom[0x2000] = 0xC9;
    let mut emu = machine_with(rom);
    assert_eq!(emu.execute_next_opcode(), Ok(24));
    assert_eq!(emu.cpu.pc, 0x2000);
    assert_eq!(emu.cpu.sp, 0xFFFC);
    assert_eq!(emu.execute_next_opcode(), Ok(16));
    assert_eq!(emu.cpu.pc, 0x0103);
    assert_eq!(emu.cpu.sp, 0xFFFE);
}

#[test]
fn palette_colors() {
    assert_eq!(GPU::get_color(0xE4, 0), COLOR_WHITE);
    assert_eq!(GPU::get_color(0xE4, 1), COLOR_LIGHT_GRAY);
    assert_eq!(GPU::get_color(0xE4, 2), COLOR_DARK_GRAY);
    assert_eq!(GPU::get_color(0xE4, 3), COLOR_BLACK);
    assert_eq!(GPU::get_color(0x1B, 0), COLOR_BLACK);
}

#[test]
fn background_tile_rendering() {
    let mut emu = machine_with(rom_image(0x00, 0, 0));
    emu.write_memory(0xFF47, 0xE4);
    emu.write_memory(0x8010, 0xFF);
    emu.write_memory(0x8011, 0x00);
    emu.write_memory(0x9800, 0x01);
    for _ in 0..(252 / 4) {
        emu.update_graphics(4);
    }
    assert_eq!(emu.mmu.gpu.video_buffer[0], COLOR_LIGHT_GRAY);
    assert_eq!(emu.mmu.gpu.video_buffer[7], COLOR_LIGHT_GRAY);
    assert_eq!(emu.mmu.gpu.video_buffer[8], COLOR_WHITE);
}

#[test]
fn jp_hl_and_ld_sp_hl() {
    let mut rom = rom_image(0x00, 0, 0);
    rom[0x100] = 0xF9;
    rom[0x101] = 0xE9;
    let mut emu = machine_with(rom);
    emu.cpu.h = 0x30;
    emu.cpu.l = 0x00;
    let sp_before = emu.cpu.sp;
    assert_eq!(emu.execute_next_opcode(), Ok(8));
    assert_eq!(emu.cpu.sp, 0x3000);
    assert_ne!(emu.cpu.sp, sp_before);
    assert_eq!(emu.execute_next_opcode(), Ok(4));
    assert_eq!(emu.cpu.pc, 0x3000);
    assert_eq!(emu.cpu.sp, 0x3000);
}

#[test]
fn push_pop_pairs() {
    let mut rom = rom_image(0x00, 0, 0);
    rom[0x100..0x104].copy_from_slice(&[0xC5, 0xD1, 0xE5, 0xF1]);
    let mut emu = machine_with(rom);
    emu.cpu.b = 0x12;
    emu.cpu.c = 0x34;
    emu.cpu.h = 0xAB;
    emu.cpu.l = 0xCD;
    assert_eq!(emu.execute_next_opcode(), Ok(16));
    assert_eq!(emu.execute_next_opcode(), Ok(12));
    assert_eq!(emu.cpu.de(), 0x1234);
    emu.execute_next_opcode().unwrap();
    emu.execute_next_opcode().unwrap();
    assert_eq!(emu.cpu.a, 0xAB);
    assert_eq!(emu.cpu.f, 0xC0);
    assert_eq!(emu.cpu.sp, 0xFFFE);
}

#[test]
fn store_sp_and_bit_on_memory() {
    let mut rom = rom_image(0x00, 0, 0);
    rom[0x100..0x103].copy_from_slice(&[0x08, 0x00, 0xC1]);
    rom[0x103..0x105].copy_from_slice(&[0xCB, 0x46]);
    rom[0x105..0x108].copy_from_slice(&[0xC4, 0x00, 0x20]);
    let mut emu = machine_with(rom);
    emu.cpu.sp = 0xBEEF;
    assert_eq!(emu.execute_next_opcode(), Ok(20));
    assert_eq!(emu.read_memory(0xC100), 0xEF);
    assert_eq!(emu.read_memory(0xC101), 0xBE);
    emu.cpu.h = 0xC1;
    emu.cpu.l = 0x00;
    emu.cpu.f = 0x00;
    assert_eq!(emu.execute_next_opcode(), Ok(12));
    assert_eq!(emu.cpu.f, 0x20);
    emu.cpu.f = 0x80;
    assert_eq!(emu.execute_next_opcode(), Ok(12));
    assert_eq!(emu.cpu.pc, 0x108);
    assert_eq!(emu.cpu.sp, 0xBEEF);
}

#[test]
fn restart_pushes_and_jumps() {
    let mut rom = rom_image(0x00, 0, 0);
    rom[0x100] = 0xEF;
    let mut emu = machine_with(rom);
    assert_eq!(emu.execute_next_opcode(), Ok(16));
    assert_eq!(emu.cpu.pc, 0x28);
    assert_eq!(emu.cpu.sp, 0xFFFC);
    assert_eq!(emu.read_memory(0xFFFC), 0x01);
    assert_eq!(emu.read_memory(0xFFFD), 0x01);
}

#[test]
fn unmapped_io_reads_ff() {
    let mut emu = machine_with(rom_image(0x00, 0, 0));
    for address in [0xFF03u16, 0xFF08, 0xFF0E, 0xFF10, 0xFF3F, 0xFF4C, 0xFF7F] {
        emu.write_memory(address, 0x00);
        assert_eq!(emu.read_memory(address), 0xFF);
    }
    emu.write_memory(0xFF02, 0x81);
    assert_eq!(emu.read_memory(0xFF02), 0x81);
}

#[test]
fn instruction_cycle_costs() {
    let mut rom = rom_image(0x00, 0, 0);
    rom[0x100..0x109].copy_from_slice(&[0x27, 0xE8, 0x02, 0x01, 0x34, 0x12, 0xCB, 0x86, 0x20]);
    rom[0x109] = 0x00;
    let mut emu = machine_with(rom);
    emu.cpu.h = 0xC0;
    emu.cpu.l = 0x00;
    assert_eq!(emu.execute_next_opcode(), Ok(4));
    assert_eq!(emu.execute_next_opcode(), Ok(16));
    assert_eq!(emu.execute_next_opcode(), Ok(12));
    assert_eq!(emu.execute_next_opcode(), Ok(16));
    emu.cpu.f = 0x80;
    assert_eq!(emu.execute_next_opcode(), Ok(8));
}
