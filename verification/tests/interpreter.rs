use chip8::Cpu;
use chip8::Fault;
use chip8::Keypad;

fn machine_with(rom: &[u8]) -> Cpu {
    let mut cpu = Cpu::new();
    cpu.load_rom(rom);
    cpu
}

fn run(cpu: &mut Cpu, cycles: usize) {
    let mut k = 0;
    while k < cycles {
        cpu.emulate_cycle().unwrap();
        k += 1;
    }
}

#[test]
fn construction_loads_font_and_zeroes_the_rest() {
    let cpu = Cpu::new();
    assert_eq!(cpu.program_counter(), 0x200);
    assert_eq!(cpu.index_register(), 0x200);
    assert_eq!(cpu.delay_timer(), 0);
    assert_eq!(cpu.sound_timer(), 0);
    for x in 0..16 {
        assert_eq!(cpu.reg(x), 0);
    }
    assert_eq!(cpu.ram_at(0), 0xF0);
    assert_eq!(cpu.ram_at(79), 0x80);
    assert_eq!(cpu.ram_at(80), 0);
    assert_eq!(cpu.ram_at(0x200), 0);
    for py in 0..32 {
        for px in 0..64 {
            assert_eq!(cpu.pixel(py, px), 0);
        }
    }
}

#[test]
fn rom_bytes_land_at_the_base_address_and_overflow_is_dropped() {
    let mut rom = vec![0u8; 4000];
    for (k, b) in rom.iter_mut().enumerate() {
        *b = (k % 251) as u8;
    }
    let cpu = machine_with(&rom);
    assert_eq!(cpu.ram_at(0x200), rom[0]);
    assert_eq!(cpu.ram_at(0x300), rom[0x100]);
    // Capacity ends at 4096: the last byte written comes from offset 3583.
    assert_eq!(cpu.ram_at(4095), rom[3583]);
    // The font stays untouched.
    assert_eq!(cpu.ram_at(0), 0xF0);
}

#[test]
fn load_immediate_then_add_immediate_wraps_and_keeps_the_flag() {
    let mut cpu = machine_with(&[0x60, 0xF0, 0x70, 0x20]);
    run(&mut cpu, 2);
    assert_eq!(cpu.reg(0), 0x10);
    assert_eq!(cpu.reg(15), 0);
    assert_eq!(cpu.program_counter(), 0x204);
}

#[test]
fn register_add_sets_the_flag_exactly_on_carry() {
    let mut cpu = machine_with(&[0x60, 0xFF, 0x61, 0x01, 0x80, 0x14]);
    run(&mut cpu, 3);
    assert_eq!(cpu.reg(0), 0x00);
    assert_eq!(cpu.reg(15), 1);

    let mut cpu = machine_with(&[0x60, 0x01, 0x61, 0x01, 0x80, 0x14]);
    run(&mut cpu, 3);
    assert_eq!(cpu.reg(0), 0x02);
    assert_eq!(cpu.reg(15), 0);
}

#[test]
fn sub_and_sub_reverse_mirror_each_other() {
    let mut cpu = machine_with(&[0x60, 0x03, 0x61, 0x05, 0x80, 0x15]);
    run(&mut cpu, 3);
    assert_eq!(cpu.reg(0), 0xFE);
    assert_eq!(cpu.reg(15), 0);

    let mut cpu = machine_with(&[0x60, 0x03, 0x61, 0x05, 0x80, 0x17]);
    run(&mut cpu, 3);
    assert_eq!(cpu.reg(0), 0x02);
    assert_eq!(cpu.reg(15), 1);
}

#[test]
fn drawing_the_same_sprite_twice_restores_the_framebuffer() {
    // Point the index register at the built-in glyph for 0 and draw it twice
    // at (0, 0).
    let mut cpu = machine_with(&[0xA0, 0x00, 0xD0, 0x15, 0xD0, 0x15]);
    run(&mut cpu, 1);
    assert_eq!(cpu.index_register(), 0);

    let out = cpu.emulate_cycle().unwrap();
    assert!(out.vram_changed);
    // Glyph 0 starts with row 0xF0: its four leading pixels are set.
    assert_eq!(cpu.pixel(0, 0), 1);
    assert_eq!(cpu.pixel(0, 3), 1);
    assert_eq!(cpu.pixel(0, 4), 0);
    assert_eq!(cpu.reg(15), 0);
    assert_eq!(out.vram[0], 1);

    let out = cpu.emulate_cycle().unwrap();
    assert!(out.vram_changed);
    // The second blit collides everywhere the first one drew...
    assert_eq!(cpu.reg(15), 1);
    // ...and cancels it: every cell is back to zero.
    for py in 0..32 {
        for px in 0..64 {
            assert_eq!(cpu.pixel(py, px), 0);
        }
    }
}

#[test]
fn draw_coordinates_wrap_around_the_framebuffer_edges() {
    // Draw glyph 0 at (62, 30): columns and rows wrap modulo 64 and 32.
    let mut cpu = machine_with(&[0x60, 0x3E, 0x61, 0x1E, 0xA0, 0x00, 0xD0, 0x15]);
    run(&mut cpu, 4);
    // Row 0xF0 at row 30: pixels at columns 62, 63, 0, 1.
    assert_eq!(cpu.pixel(30, 62), 1);
    assert_eq!(cpu.pixel(30, 1), 1);
    assert_eq!(cpu.pixel(30, 2), 0);
    // Rows 32 and 33 of the sprite wrap to rows 0 and 1.
    assert_eq!(cpu.pixel(0, 62), 1);
    assert_eq!(cpu.pixel(1, 62), 1);
}

#[test]
fn clear_screen_zeroes_every_cell_and_reports_a_change() {
    let mut cpu = machine_with(&[0xA0, 0x00, 0xD0, 0x15, 0x00, 0xE0]);
    run(&mut cpu, 2);
    assert_eq!(cpu.pixel(0, 0), 1);
    let out = cpu.emulate_cycle().unwrap();
    assert!(out.vram_changed);
    for py in 0..32 {
        for px in 0..64 {
            assert_eq!(cpu.pixel(py, px), 0);
        }
    }
}

#[test]
fn call_then_return_round_trips_the_program_counter() {
    let mut rom = vec![0u8; 0x102];
    rom[0] = 0x23;
    rom[1] = 0x00;
    rom[0x100] = 0x00;
    rom[0x101] = 0xEE;
    let mut cpu = machine_with(&rom);
    run(&mut cpu, 1);
    assert_eq!(cpu.program_counter(), 0x300);
    run(&mut cpu, 1);
    assert_eq!(cpu.program_counter(), 0x202);
}

#[test]
fn bcd_store_writes_the_three_decimal_digits() {
    let mut cpu = machine_with(&[0x60, 0x0A, 0xA0, 0x50, 0xF0, 0x33]);
    run(&mut cpu, 3);
    assert_eq!(cpu.ram_at(0x50), 0);
    assert_eq!(cpu.ram_at(0x51), 1);
    assert_eq!(cpu.ram_at(0x52), 0);

    let mut cpu = machine_with(&[0x60, 0xFE, 0xA0, 0x50, 0xF0, 0x33]);
    run(&mut cpu, 3);
    assert_eq!(cpu.ram_at(0x50), 2);
    assert_eq!(cpu.ram_at(0x51), 5);
    assert_eq!(cpu.ram_at(0x52), 4);
}

#[test]
fn timers_count_down_once_per_cycle_and_floor_at_zero() {
    // Memory past the ROM holds zero words, which execute as no-ops.
    let mut cpu = Cpu::new();
    cpu.set_delay_timer(2);
    run(&mut cpu, 1);
    assert_eq!(cpu.delay_timer(), 1);
    run(&mut cpu, 1);
    assert_eq!(cpu.delay_timer(), 0);
    run(&mut cpu, 1);
    assert_eq!(cpu.delay_timer(), 0);
}

#[test]
fn timer_opcodes_set_and_read_the_delay_timer() {
    // Set delay from reg0, then read it back into reg1. The set cycle itself
    // already ticks the timer down once, and so does the read cycle's fetch.
    let mut cpu = machine_with(&[0x60, 0x30, 0xF0, 0x15, 0xF1, 0x07]);
    run(&mut cpu, 2);
    assert_eq!(cpu.delay_timer(), 0x2F);
    run(&mut cpu, 1);
    assert_eq!(cpu.reg(1), 0x2F);
    assert_eq!(cpu.delay_timer(), 0x2E);
}

#[test]
fn sound_timer_drives_the_beep_flag() {
    let mut cpu = machine_with(&[0x60, 0x02, 0xF0, 0x18]);
    let out = cpu.emulate_cycle().unwrap();
    assert!(!out.beep);
    // Setting the timer to 2 is followed by the same cycle's tick to 1.
    let out = cpu.emulate_cycle().unwrap();
    assert!(out.beep);
    assert_eq!(cpu.sound_timer(), 1);
    let out = cpu.emulate_cycle().unwrap();
    assert!(!out.beep);
    assert_eq!(cpu.sound_timer(), 0);
}

#[test]
fn unknown_opcodes_advance_and_mutate_nothing() {
    let mut cpu = machine_with(&[0x01, 0x23]);
    let out = cpu.emulate_cycle().unwrap();
    assert_eq!(cpu.program_counter(), 0x202);
    assert!(!out.vram_changed);
    for x in 0..16 {
        assert_eq!(cpu.reg(x), 0);
    }
    assert_eq!(cpu.index_register(), 0x200);
}

#[test]
fn immediate_skips_take_the_right_branch() {
    let mut cpu = machine_with(&[0x30, 0x00]);
    run(&mut cpu, 1);
    assert_eq!(cpu.program_counter(), 0x204);

    let mut cpu = machine_with(&[0x30, 0x01]);
    run(&mut cpu, 1);
    assert_eq!(cpu.program_counter(), 0x202);

    let mut cpu = machine_with(&[0x40, 0x01]);
    run(&mut cpu, 1);
    assert_eq!(cpu.program_counter(), 0x204);

    let mut cpu = machine_with(&[0x40, 0x00]);
    run(&mut cpu, 1);
    assert_eq!(cpu.program_counter(), 0x202);
}

#[test]
fn register_skips_take_the_right_branch() {
    let mut cpu = machine_with(&[0x60, 0x07, 0x61, 0x07, 0x50, 0x10]);
    run(&mut cpu, 3);
    assert_eq!(cpu.program_counter(), 0x208);

    let mut cpu = machine_with(&[0x60, 0x07, 0x61, 0x08, 0x50, 0x10]);
    run(&mut cpu, 3);
    assert_eq!(cpu.program_counter(), 0x206);

    let mut cpu = machine_with(&[0x60, 0x07, 0x61, 0x08, 0x90, 0x10]);
    run(&mut cpu, 3);
    assert_eq!(cpu.program_counter(), 0x208);
}

#[test]
fn bitwise_and_move_opcodes_combine_registers() {
    let mut cpu = machine_with(&[0x60, 0x0C, 0x61, 0x0A, 0x80, 0x11]);
    run(&mut cpu, 3);
    assert_eq!(cpu.reg(0), 0x0E);

    let mut cpu = machine_with(&[0x60, 0x0C, 0x61, 0x0A, 0x80, 0x12]);
    run(&mut cpu, 3);
    assert_eq!(cpu.reg(0), 0x08);

    let mut cpu = machine_with(&[0x60, 0x0C, 0x61, 0x0A, 0x80, 0x13]);
    run(&mut cpu, 3);
    assert_eq!(cpu.reg(0), 0x06);

    let mut cpu = machine_with(&[0x61, 0x0A, 0x80, 0x10]);
    run(&mut cpu, 2);
    assert_eq!(cpu.reg(0), 0x0A);
}

#[test]
fn shifts_report_the_dropped_bit_in_the_flag() {
    let mut cpu = machine_with(&[0x60, 0x05, 0x80, 0x06]);
    run(&mut cpu, 2);
    assert_eq!(cpu.reg(0), 0x02);
    assert_eq!(cpu.reg(15), 1);

    let mut cpu = machine_with(&[0x60, 0x81, 0x80, 0x0E]);
    run(&mut cpu, 2);
    assert_eq!(cpu.reg(0), 0x02);
    assert_eq!(cpu.reg(15), 1);

    let mut cpu = machine_with(&[0x60, 0x04, 0x80, 0x0E]);
    run(&mut cpu, 2);
    assert_eq!(cpu.reg(0), 0x08);
    assert_eq!(cpu.reg(15), 0);
}

#[test]
fn jump_with_offset_assigns_the_program_counter_absolutely() {
    let mut cpu = machine_with(&[0x60, 0x05, 0xB3, 0x00]);
    run(&mut cpu, 2);
    assert_eq!(cpu.program_counter(), 0x305);
}

#[test]
fn random_mask_respects_the_immediate() {
    // A zero mask forces a zero result whatever byte was drawn.
    let mut cpu = machine_with(&[0xC0, 0x00, 0xC1, 0x7B]);
    run(&mut cpu, 2);
    assert_eq!(cpu.reg(0), 0);
    // Bits outside the mask can never be set.
    assert_eq!(cpu.reg(1) & 0x84, 0);
}

#[test]
fn add_to_index_reports_the_high_water_mark() {
    let mut cpu = machine_with(&[0xAF, 0x00, 0x60, 0x01, 0xF0, 0x1E]);
    run(&mut cpu, 3);
    assert_eq!(cpu.index_register(), 0xF01);
    assert_eq!(cpu.reg(15), 1);

    let mut cpu = machine_with(&[0xA0, 0x50, 0x60, 0x01, 0xF0, 0x1E]);
    run(&mut cpu, 3);
    assert_eq!(cpu.index_register(), 0x51);
    assert_eq!(cpu.reg(15), 0);
}

#[test]
fn font_addressing_points_at_five_byte_glyphs() {
    let mut cpu = machine_with(&[0x60, 0x0F, 0xF0, 0x29]);
    run(&mut cpu, 2);
    assert_eq!(cpu.index_register(), 75);
    assert_eq!(cpu.ram_at(75), 0xF0);
    assert_eq!(cpu.ram_at(79), 0x80);
}

#[test]
fn register_dump_and_load_round_trip_through_memory() {
    let mut cpu = machine_with(&[0xA3, 0x00, 0xF2, 0x55]);
    cpu.set_reg(0, 0x11);
    cpu.set_reg(1, 0x22);
    cpu.set_reg(2, 0x33);
    cpu.set_reg(3, 0x44);
    run(&mut cpu, 2);
    assert_eq!(cpu.ram_at(0x300), 0x11);
    assert_eq!(cpu.ram_at(0x301), 0x22);
    assert_eq!(cpu.ram_at(0x302), 0x33);
    // Register 3 lies beyond the dumped range.
    assert_eq!(cpu.ram_at(0x303), 0x00);
    assert_eq!(cpu.index_register(), 0x300);

    let mut cpu = machine_with(&[0xA3, 0x00, 0xF1, 0x65]);
    run(&mut cpu, 1);
    // Nothing was stored at 0x300, so loading brings back zeros.
    run(&mut cpu, 1);
    assert_eq!(cpu.reg(0), 0);
    assert_eq!(cpu.reg(1), 0);
    assert_eq!(cpu.index_register(), 0x300);
}

#[test]
fn key_skips_query_the_keypad() {
    let mut cpu = machine_with(&[0x60, 0x05, 0xE0, 0x9E]);
    cpu.keypad.press_key(5);
    run(&mut cpu, 2);
    assert_eq!(cpu.program_counter(), 0x206);

    let mut cpu = machine_with(&[0x60, 0x05, 0xE0, 0x9E]);
    run(&mut cpu, 2);
    assert_eq!(cpu.program_counter(), 0x204);

    let mut cpu = machine_with(&[0x60, 0x05, 0xE0, 0xA1]);
    run(&mut cpu, 2);
    assert_eq!(cpu.program_counter(), 0x206);
}

#[test]
fn wait_for_key_samples_the_lowest_held_key_and_always_advances() {
    let mut cpu = machine_with(&[0xF0, 0x0A]);
    cpu.keypad.press_key(9);
    cpu.keypad.press_key(3);
    run(&mut cpu, 1);
    assert_eq!(cpu.reg(0), 3);
    assert_eq!(cpu.program_counter(), 0x202);

    // With no key held the register is untouched and the cycle still
    // advances: the driver is expected to re-enter the instruction.
    let mut cpu = machine_with(&[0x60, 0x77, 0xF0, 0x0A]);
    run(&mut cpu, 2);
    assert_eq!(cpu.reg(0), 0x77);
    assert_eq!(cpu.program_counter(), 0x204);
}

#[test]
fn return_without_a_call_is_a_stack_underflow() {
    let mut cpu = machine_with(&[0x00, 0xEE]);
    assert_eq!(cpu.emulate_cycle().unwrap_err(), Fault::StackUnderflow);
    // The machine stands still on a fault.
    assert_eq!(cpu.program_counter(), 0x200);
}

#[test]
fn seventeen_nested_calls_overflow_the_stack() {
    // Each instruction calls the next address: 0x200 -> 0x202 -> ...
    let mut rom = vec![0u8; 34];
    for k in 0..17 {
        let target = 0x202 + 2 * (k as u16);
        rom[2 * k] = 0x20 | (target >> 8) as u8;
        rom[2 * k + 1] = (target & 0xFF) as u8;
    }
    let mut cpu = machine_with(&rom);
    for _ in 0..16 {
        cpu.emulate_cycle().unwrap();
    }
    assert_eq!(cpu.emulate_cycle().unwrap_err(), Fault::StackOverflow);
}

#[test]
fn memory_accesses_computed_outside_capacity_are_faults() {
    // A three-byte BCD write starting at 0xFFE would pass the end of memory.
    let mut cpu = machine_with(&[0xAF, 0xFE, 0xF0, 0x33]);
    run(&mut cpu, 1);
    assert_eq!(cpu.emulate_cycle().unwrap_err(), Fault::MemoryOutOfRange);

    // ...while one starting at 0xFFD still fits exactly.
    let mut cpu = machine_with(&[0xAF, 0xFD, 0xF0, 0x33]);
    run(&mut cpu, 2);
    assert_eq!(cpu.ram_at(0xFFD), 0);

    // An index-register add that passes capacity is a fault too.
    let mut cpu = machine_with(&[0xAF, 0xFF, 0x60, 0xFF, 0xF0, 0x1E]);
    run(&mut cpu, 2);
    assert_eq!(cpu.emulate_cycle().unwrap_err(), Fault::MemoryOutOfRange);
}

#[test]
fn a_program_counter_outside_capacity_is_a_fault() {
    let mut cpu = machine_with(&[0x1F, 0xFF]);
    run(&mut cpu, 1);
    assert_eq!(cpu.program_counter(), 0xFFF);
    assert_eq!(cpu.emulate_cycle().unwrap_err(), Fault::MemoryOutOfRange);
}

#[test]
fn a_key_query_outside_the_pad_is_a_fault() {
    let mut cpu = machine_with(&[0x60, 0x20, 0xE0, 0x9E]);
    run(&mut cpu, 1);
    assert_eq!(cpu.emulate_cycle().unwrap_err(), Fault::KeyOutOfRange);
}

#[test]
fn fixture_setters_shape_minimal_states() {
    let mut cpu = Cpu::new();
    cpu.set_index_register(0x123);
    assert_eq!(cpu.index_register(), 0x123);
    cpu.set_reg(7, 0x55);
    assert_eq!(cpu.reg(7), 0x55);
    cpu.set_delay_timer(9);
    assert_eq!(cpu.delay_timer(), 9);
    cpu.set_sound_timer(2);
    // One no-op cycle ticks both timers.
    cpu.emulate_cycle().unwrap();
    assert_eq!(cpu.sound_timer(), 1);
    assert_eq!(cpu.delay_timer(), 8);
}

#[test]
fn keypad_records_pressed_keys() {
    let mut pad = Keypad::new();
    for k in 0..16 {
        assert!(!pad.pressed(k));
    }
    pad.press_key(0xC);
    assert!(pad.pressed(0xC));
    assert!(!pad.pressed(0xB));
}
