use chip8::chip8::CHIP8;
use chip8::error::VmError;
use chip8::instruction::Instruction;
use chip8::model::{FONT_SET, MAX_PROGRAM_SIZE, RAM_SIZE, SCREEN_CELLS};

fn run(chip: &mut CHIP8, ticks: usize) {
    for _ in 0..ticks {
        assert_eq!(chip.tick_with(0, 0), Ok(()));
    }
}

fn lit_cells(chip: &CHIP8) -> Vec<usize> {
    let gfx = chip.gfx();
    (0..gfx.len()).filter(|&k| gfx[k] == 1).collect()
}

#[test]
fn a_new_machine_holds_the_font_and_the_image() {
    let rom = [0x12, 0x34, 0x56];
    let chip = CHIP8::new(&rom);
    for a in 0..80 {
        assert_eq!(chip.memory(a), FONT_SET[a]);
    }
    for a in 80..512 {
        assert_eq!(chip.memory(a), 0);
    }
    assert_eq!(chip.memory(0x200), 0x12);
    assert_eq!(chip.memory(0x201), 0x34);
    assert_eq!(chip.memory(0x202), 0x56);
    for a in 0x203..RAM_SIZE {
        assert_eq!(chip.memory(a), 0);
    }
    assert_eq!(chip.pc(), 0x200);
    assert_eq!(chip.index(), 0);
    for r in 0..16 {
        assert_eq!(chip.register(r), 0);
        assert!(!chip.key(r));
    }
    assert_eq!(chip.gfx().len(), SCREEN_CELLS);
    assert!(lit_cells(&chip).is_empty());
    assert_eq!(chip.delay_timer(), 0);
    assert_eq!(chip.sound_timer(), 0);
    assert_eq!(chip.stack_depth(), 0);
    assert_eq!(chip.instruction(), Instruction::new());
    assert!(!chip.draw());
}

#[test]
fn the_largest_image_fills_memory_to_its_end() {
    let rom = vec![0xAB; MAX_PROGRAM_SIZE];
    let chip = CHIP8::new(&rom);
    assert_eq!(chip.memory(0x200), 0xAB);
    assert_eq!(chip.memory(RAM_SIZE - 1), 0xAB);
    assert_eq!(chip.memory(0x1FF), 0);
}

#[test]
fn an_empty_image_runs_into_machine_code_calls() {
    let mut chip = CHIP8::new(&[]);
    run(&mut chip, 3);
    assert_eq!(chip.pc(), 0x206);
}

#[test]
fn load_load_add() {
    let mut chip = CHIP8::new(&[0x60, 0x0A, 0x61, 0x05, 0x80, 0x14]);
    run(&mut chip, 3);
    assert_eq!(chip.register(0), 0x0F);
    assert_eq!(chip.register(1), 0x05);
    assert_eq!(chip.register(0xF), 0);
    assert_eq!(chip.pc(), 0x206);
}

#[test]
fn immediate_add_wraps_and_leaves_the_flag() {
    let mut chip = CHIP8::new(&[0x6F, 0x07, 0x60, 0xFF, 0x70, 0x02]);
    run(&mut chip, 3);
    assert_eq!(chip.register(0), 0x01);
    assert_eq!(chip.register(0xF), 0x07);
}

#[test]
fn register_add_sets_the_carry() {
    let mut chip = CHIP8::new(&[0x60, 0xFF, 0x61, 0x02, 0x80, 0x14, 0x80, 0x14]);
    run(&mut chip, 3);
    assert_eq!(chip.register(0), 0x01);
    assert_eq!(chip.register(0xF), 1);
    run(&mut chip, 1);
    assert_eq!(chip.register(0), 0x03);
    assert_eq!(chip.register(0xF), 0);
}

#[test]
fn register_add_for_all_operands() {
    for a in 0..=255u8 {
        for b in [0u8, 1, 2, 127, 128, 254, 255, a, !a] {
            let mut chip = CHIP8::new(&[0x63, a, 0x64, b, 0x83, 0x44]);
            run(&mut chip, 3);
            assert_eq!(chip.register(3), a.wrapping_add(b));
            assert_eq!(chip.register(0xF), (a as u16 + b as u16 > 255) as u8);
            assert_eq!(chip.register(4), b);
        }
    }
}

#[test]
fn register_add_into_the_flag_register_keeps_the_sum() {
    let mut chip = CHIP8::new(&[0x6F, 0xF0, 0x61, 0x20, 0x8F, 0x14]);
    run(&mut chip, 3);
    assert_eq!(chip.register(0xF), 0x10);
}

#[test]
fn sub_and_subn_for_all_operands() {
    for a in 0..=255u8 {
        for b in [0u8, 1, 2, 127, 128, 254, 255, a, !a] {
            let mut chip = CHIP8::new(&[0x63, a, 0x64, b, 0x83, 0x45]);
            run(&mut chip, 3);
            assert_eq!(chip.register(3), a.wrapping_sub(b));
            assert_eq!(chip.register(0xF), (a > b) as u8);
            let mut chip = CHIP8::new(&[0x63, a, 0x64, b, 0x83, 0x47]);
            run(&mut chip, 3);
            assert_eq!(chip.register(3), b.wrapping_sub(a));
            assert_eq!(chip.register(0xF), (b > a) as u8);
        }
    }
}

#[test]
fn sub_of_equal_values_borrows() {
    let mut chip = CHIP8::new(&[0x60, 0x07, 0x61, 0x07, 0x80, 0x15]);
    run(&mut chip, 3);
    assert_eq!(chip.register(0), 0);
    assert_eq!(chip.register(0xF), 0);
}

#[test]
fn sub_reads_the_flag_register_before_it_writes_it() {
    // V1 - VF with VF = 3: the difference uses the old VF, not the new flag.
    let mut chip = CHIP8::new(&[0x6F, 0x03, 0x61, 0x0A, 0x81, 0xF5]);
    run(&mut chip, 3);
    assert_eq!(chip.register(1), 7);
    assert_eq!(chip.register(0xF), 1);
}

#[test]
fn shifts_for_all_values() {
    for v in 0..=255u8 {
        let mut chip = CHIP8::new(&[0x62, v, 0x82, 0x06]);
        run(&mut chip, 2);
        assert_eq!(chip.register(2), v >> 1);
        assert_eq!(chip.register(0xF), v & 1);
        let mut chip = CHIP8::new(&[0x62, v, 0x82, 0x0E]);
        run(&mut chip, 2);
        assert_eq!(chip.register(2), ((v as u16 * 2) % 256) as u8);
        assert_eq!(chip.register(0xF), (v & 0x80 != 0) as u8);
    }
}

#[test]
fn shifts_ignore_vy() {
    let mut chip = CHIP8::new(&[0x62, 0x05, 0x63, 0xF0, 0x82, 0x36, 0x82, 0x3E]);
    run(&mut chip, 3);
    assert_eq!(chip.register(2), 0x02);
    assert_eq!(chip.register(0xF), 1);
    run(&mut chip, 1);
    assert_eq!(chip.register(2), 0x04);
    assert_eq!(chip.register(0xF), 0);
    assert_eq!(chip.register(3), 0xF0);
}

#[test]
fn bitwise_operations_leave_the_flag() {
    let setup = [0x6F, 0x09, 0x60, 0b1100, 0x61, 0b1010];
    for (selector, expected) in [(0x11u8, 0b1110u8), (0x12, 0b1000), (0x13, 0b0110), (0x10, 0b1010)] {
        let mut rom = setup.to_vec();
        rom.extend([0x80, selector]);
        let mut chip = CHIP8::new(&rom);
        run(&mut chip, 4);
        assert_eq!(chip.register(0), expected);
        assert_eq!(chip.register(1), 0b1010);
        assert_eq!(chip.register(0xF), 0x09);
    }
}

#[test]
fn bcd_of_234() {
    let mut chip = CHIP8::new(&[0x60, 234, 0xA3, 0x00, 0xF0, 0x33]);
    run(&mut chip, 3);
    assert_eq!(chip.memory(0x300), 2);
    assert_eq!(chip.memory(0x301), 3);
    assert_eq!(chip.memory(0x302), 4);
    assert_eq!(chip.memory(0x303), 0);
    assert_eq!(chip.memory(0x2FF), 0);
    assert_eq!(chip.index(), 0x300);
}

#[test]
fn bcd_of_every_value() {
    for v in 0..=255u8 {
        let mut chip = CHIP8::new(&[0x60, v, 0xA3, 0x00, 0xF0, 0x33]);
        run(&mut chip, 3);
        assert_eq!(chip.memory(0x300), v / 100);
        assert_eq!(chip.memory(0x301), v / 10 % 10);
        assert_eq!(chip.memory(0x302), v % 10);
    }
}

#[test]
fn store_then_load_restores_the_registers() {
    // V0..V3 = 1, 2, 3, 4; store at 0x300; clobber; load back.
    let mut chip = CHIP8::new(&[
        0x60, 0x01, 0x61, 0x02, 0x62, 0x03, 0x63, 0x04, 0x64, 0x05, 0xA3, 0x00, 0xF3, 0x55, 0x60,
        0xAA, 0x61, 0xBB, 0x62, 0xCC, 0x63, 0xDD, 0x64, 0xEE, 0xF3, 0x65,
    ]);
    run(&mut chip, 7);
    for (a, expected) in [(0x300, 1), (0x301, 2), (0x302, 3), (0x303, 4), (0x304, 0)] {
        assert_eq!(chip.memory(a), expected);
    }
    assert_eq!(chip.index(), 0x300);
    run(&mut chip, 6);
    assert_eq!(chip.register(0), 1);
    assert_eq!(chip.register(1), 2);
    assert_eq!(chip.register(2), 3);
    assert_eq!(chip.register(3), 4);
    assert_eq!(chip.register(4), 0xEE);
    assert_eq!(chip.index(), 0x300);
}

#[test]
fn store_with_x_zero_writes_one_byte() {
    let mut chip = CHIP8::new(&[0x60, 0x11, 0x61, 0x22, 0xA3, 0x00, 0xF0, 0x55]);
    run(&mut chip, 4);
    assert_eq!(chip.memory(0x300), 0x11);
    assert_eq!(chip.memory(0x301), 0);
}

#[test]
fn store_with_x_fifteen_writes_all_registers() {
    let mut rom = Vec::new();
    for r in 0..16u8 {
        rom.extend([0x60 | r, 0x10 + r]);
    }
    rom.extend([0xA3, 0x00, 0xFF, 0x55]);
    let mut chip = CHIP8::new(&rom);
    run(&mut chip, 18);
    for r in 0..16usize {
        assert_eq!(chip.memory(0x300 + r), 0x10 + r as u8);
    }
    assert_eq!(chip.memory(0x310), 0);
}

#[test]
fn call_then_return() {
    // 0x200: call 0x206; 0x202: V0 = 1; ...; 0x206: ret
    let mut chip = CHIP8::new(&[0x22, 0x06, 0x60, 0x01, 0x00, 0x00, 0x00, 0xEE]);
    run(&mut chip, 1);
    assert_eq!(chip.pc(), 0x206);
    assert_eq!(chip.stack_depth(), 1);
    run(&mut chip, 1);
    assert_eq!(chip.pc(), 0x202);
    assert_eq!(chip.stack_depth(), 0);
    run(&mut chip, 1);
    assert_eq!(chip.register(0), 1);
}

#[test]
fn jump_and_indexed_jump() {
    let mut chip = CHIP8::new(&[0x12, 0x04, 0x00, 0x00, 0x60, 0x08, 0xB3, 0x00]);
    run(&mut chip, 1);
    assert_eq!(chip.pc(), 0x204);
    run(&mut chip, 2);
    assert_eq!(chip.pc(), 0x308);
}

#[test]
fn skip_equal_immediate() {
    let mut chip = CHIP8::new(&[0x60, 0x05, 0x30, 0x05]);
    run(&mut chip, 2);
    assert_eq!(chip.pc(), 0x202 + 4);
    let mut chip = CHIP8::new(&[0x60, 0x05, 0x30, 0x06]);
    run(&mut chip, 2);
    assert_eq!(chip.pc(), 0x202 + 2);
}

#[test]
fn the_other_skips() {
    let cases: [(&[u8], u16); 6] = [
        (&[0x60, 0x05, 0x40, 0x05], 2),
        (&[0x60, 0x05, 0x40, 0x06], 4),
        (&[0x60, 0x05, 0x50, 0x10], 2),
        (&[0x60, 0x00, 0x50, 0x10], 4),
        (&[0x60, 0x05, 0x90, 0x10], 4),
        (&[0x60, 0x00, 0x90, 0x10], 2),
    ];
    for (rom, advance) in cases {
        let mut chip = CHIP8::new(rom);
        run(&mut chip, 2);
        assert_eq!(chip.pc(), 0x202 + advance);
    }
}

#[test]
fn skips_on_keys() {
    for (pressed, selector, advance) in
        [(true, 0x9Eu8, 4u16), (false, 0x9E, 2), (true, 0xA1, 2), (false, 0xA1, 4)]
    {
        let mut chip = CHIP8::new(&[0x60, 0x0B, 0xE0, selector]);
        chip.set_key(0xB, pressed);
        run(&mut chip, 2);
        assert_eq!(chip.pc(), 0x202 + advance);
    }
}

#[test]
fn a_key_is_named_by_the_low_nibble() {
    let mut chip = CHIP8::new(&[0x60, 0x3B, 0xE0, 0x9E]);
    chip.set_key(0xB, true);
    run(&mut chip, 2);
    assert_eq!(chip.pc(), 0x206);
}

#[test]
fn set_key_changes_one_key() {
    let mut chip = CHIP8::new(&[]);
    chip.set_key(4, true);
    for k in 0..16 {
        assert_eq!(chip.key(k), k == 4);
    }
    chip.set_key(4, false);
    assert!(!chip.key(4));
    assert_eq!(chip.pc(), 0x200);
}

#[test]
fn wait_for_key_stays_until_a_key_is_down() {
    let mut chip = CHIP8::new(&[0x65, 0x3C, 0xF5, 0x15, 0xF2, 0x0A]);
    run(&mut chip, 2);
    assert_eq!(chip.delay_timer(), 60);
    for _ in 0..5 {
        assert_eq!(chip.tick_with(20_000_000, 0), Ok(()));
        assert_eq!(chip.pc(), 0x204);
        assert_eq!(chip.register(2), 0);
    }
    // 100 ms have passed: six timer periods.
    assert_eq!(chip.delay_timer(), 54);
    chip.set_key(3, true);
    chip.set_key(9, true);
    run(&mut chip, 1);
    assert_eq!(chip.pc(), 0x206);
    assert_eq!(chip.register(2), 9);
}

#[test]
fn timers_are_read_and_written_verbatim() {
    let mut chip = CHIP8::new(&[0x60, 0xC8, 0xF0, 0x15, 0xF0, 0x18, 0xF1, 0x07]);
    run(&mut chip, 4);
    assert_eq!(chip.delay_timer(), 0xC8);
    assert_eq!(chip.sound_timer(), 0xC8);
    assert_eq!(chip.register(1), 0xC8);
}

#[test]
fn index_register_operations() {
    let mut chip = CHIP8::new(&[0xAF, 0xFF, 0x60, 0xFF, 0xF0, 0x1E, 0x6F, 0x05, 0xF0, 0x1E]);
    run(&mut chip, 3);
    assert_eq!(chip.index(), 0x0FFF + 0xFF);
    assert_eq!(chip.register(0xF), 0);
    run(&mut chip, 2);
    assert_eq!(chip.index(), 0x0FFF + 0xFF + 0xFF);
    assert_eq!(chip.register(0xF), 5);
}

#[test]
fn index_register_wraps_at_sixteen_bits() {
    // 0x200: V0 = 0xFF; 0x202: I = 0xFFF; 0x204: I += V0; 0x206: jmp 0x204
    let mut chip = CHIP8::new(&[0x60, 0xFF, 0xAF, 0xFF, 0xF0, 0x1E, 0x12, 0x04]);
    run(&mut chip, 2);
    let mut expected: u16 = 0x0FFF;
    for _ in 0..300 {
        run(&mut chip, 2);
        expected = expected.wrapping_add(0xFF);
        assert_eq!(chip.index(), expected);
    }
    // 0x0FFF + 300 * 0xFF = 80595 = 65536 + 15059
    assert_eq!(chip.index(), 15059);
}

#[test]
fn font_lookup_uses_the_low_nibble() {
    for v in [0x00u8, 0x01, 0x0F, 0x1A, 0xFF] {
        let mut chip = CHIP8::new(&[0x60, v, 0xF0, 0x29]);
        run(&mut chip, 2);
        assert_eq!(chip.index(), 5 * (v & 0x0F) as u16);
    }
}

#[test]
fn random_is_masked() {
    let mut chip = CHIP8::new(&[0xC0, 0x0F, 0xC1, 0xFF, 0xC2, 0x00]);
    assert_eq!(chip.tick_with(0, 0xA7), Ok(()));
    assert_eq!(chip.register(0), 0x07);
    assert_eq!(chip.tick_with(0, 0xA7), Ok(()));
    assert_eq!(chip.register(1), 0xA7);
    assert_eq!(chip.tick_with(0, 0xA7), Ok(()));
    assert_eq!(chip.register(2), 0x00);
}

#[test]
fn only_the_random_instruction_sees_the_random_byte() {
    let rom = [0x60, 0x0A, 0x61, 0x05, 0x80, 0x14];
    let mut a = CHIP8::new(&rom);
    let mut b = CHIP8::new(&rom);
    for _ in 0..3 {
        assert_eq!(a.tick_with(0, 0x00), Ok(()));
        assert_eq!(b.tick_with(0, 0xFF), Ok(()));
    }
    for r in 0..16 {
        assert_eq!(a.register(r), b.register(r));
    }
}

#[test]
fn tick_draws_its_own_random_byte() {
    let mut seen = [false; 4];
    for _ in 0..400 {
        let mut chip = CHIP8::new(&[0x60, 0xFF, 0xC0, 0x03, 0x61, 0x07]);
        assert_eq!(chip.tick(0), Ok(()));
        assert_eq!(chip.register(0), 0xFF);
        assert_eq!(chip.tick(0), Ok(()));
        assert!(chip.register(0) <= 3);
        seen[chip.register(0) as usize] = true;
        assert_eq!(chip.tick(0), Ok(()));
        assert_eq!(chip.register(1), 7);
        assert_eq!(chip.pc(), 0x206);
    }
    assert!(seen.iter().filter(|&&s| s).count() >= 2);
}

#[test]
fn draw_twice() {
    // I = 0x208; draw V0, V0, 1 twice; the sprite row 0xFF is at 0x208.
    let mut chip = CHIP8::new(&[0xA2, 0x08, 0xD0, 0x01, 0xD0, 0x01, 0x00, 0x00, 0xFF]);
    run(&mut chip, 1);
    assert!(!chip.draw());
    run(&mut chip, 1);
    assert_eq!(lit_cells(&chip), vec![0, 1, 2, 3, 4, 5, 6, 7]);
    assert_eq!(chip.register(0xF), 0);
    assert!(chip.draw());
    run(&mut chip, 1);
    assert!(lit_cells(&chip).is_empty());
    assert_eq!(chip.register(0xF), 1);
    assert!(chip.draw());
    run(&mut chip, 1);
    assert!(!chip.draw());
}

#[test]
fn draw_a_font_glyph() {
    // V0 = 3, V1 = 2; I = glyph of 1; draw V0, V1, 5
    let mut chip = CHIP8::new(&[0x60, 0x03, 0x61, 0x02, 0x62, 0x01, 0xF2, 0x29, 0xD0, 0x15]);
    run(&mut chip, 5);
    // 0x20, 0x60, 0x20, 0x20, 0x70
    let expected: Vec<usize> = vec![
        2 * 64 + 3 + 2,
        3 * 64 + 3 + 1,
        3 * 64 + 3 + 2,
        4 * 64 + 3 + 2,
        5 * 64 + 3 + 2,
        6 * 64 + 3 + 1,
        6 * 64 + 3 + 2,
        6 * 64 + 3 + 3,
    ];
    assert_eq!(lit_cells(&chip), expected);
    assert_eq!(chip.register(0xF), 0);
}

#[test]
fn draw_resets_the_flag_and_reports_partial_overlap() {
    // Row 0xF0 at column 0, then row 0x18 at column 0: one cell overlaps.
    let mut chip = CHIP8::new(&[
        0x6F, 0x09, 0xA2, 0x0A, 0xD0, 0x01, 0xA2, 0x0B, 0xD0, 0x01, 0xF0, 0x18,
    ]);
    run(&mut chip, 3);
    assert_eq!(chip.register(0xF), 0);
    assert_eq!(lit_cells(&chip), vec![0, 1, 2, 3]);
    run(&mut chip, 2);
    assert_eq!(chip.register(0xF), 1);
    assert_eq!(lit_cells(&chip), vec![0, 1, 2, 4]);
}

#[test]
fn draw_past_the_right_edge_runs_into_the_next_row() {
    // V0 = 60, V1 = 0: columns 60..67 of row 0, that is 60..63 and 0..3 of row 1.
    let mut chip = CHIP8::new(&[0x60, 60, 0x61, 0x00, 0xA2, 0x08, 0xD0, 0x11, 0xFF]);
    run(&mut chip, 4);
    assert_eq!(lit_cells(&chip), vec![60, 61, 62, 63, 64, 65, 66, 67]);
}

#[test]
fn draw_past_the_last_cell_is_clamped_to_it() {
    // V0 = 62, V1 = 31: cells 2046, 2047 and then six times the last one.
    let mut chip = CHIP8::new(&[0x60, 62, 0x61, 31, 0xA2, 0x08, 0xD0, 0x11, 0xFF]);
    run(&mut chip, 4);
    // 2047 is toggled seven times and stays on; the second toggle collides.
    assert_eq!(lit_cells(&chip), vec![2046, 2047]);
    assert_eq!(chip.register(0xF), 1);
}

#[test]
fn draw_far_outside_toggles_the_last_cell_only() {
    // V0 = 255, V1 = 255, one pixel.
    let mut chip = CHIP8::new(&[0x60, 0xFF, 0x61, 0xFF, 0xA2, 0x08, 0xD0, 0x11, 0x80]);
    run(&mut chip, 4);
    assert_eq!(lit_cells(&chip), vec![2047]);
    assert_eq!(chip.register(0xF), 0);
}

#[test]
fn draw_of_height_zero_draws_nothing() {
    let mut chip = CHIP8::new(&[0x6F, 0x01, 0xAF, 0xFF, 0xD0, 0x00]);
    run(&mut chip, 3);
    assert!(lit_cells(&chip).is_empty());
    assert_eq!(chip.register(0xF), 0);
    assert!(chip.draw());
}

#[test]
fn clear_screen() {
    let mut chip = CHIP8::new(&[0xA2, 0x06, 0xD0, 0x01, 0x00, 0xE0, 0xFF]);
    run(&mut chip, 2);
    assert_eq!(lit_cells(&chip).len(), 8);
    run(&mut chip, 1);
    assert!(lit_cells(&chip).is_empty());
    assert!(!chip.draw());
}

#[test]
fn unknown_opcode() {
    let mut chip = CHIP8::new(&[0x60, 0x01, 0x80, 0x19]);
    run(&mut chip, 1);
    assert_eq!(chip.tick_with(1_000_000_000, 0), Err(VmError::UnknownOpcode));
    assert_eq!(chip.pc(), 0x202);
    assert_eq!(chip.register(0), 1);
    assert_eq!(chip.tick(0), Err(VmError::UnknownOpcode));
}

#[test]
fn stack_underflow() {
    let mut chip = CHIP8::new(&[0x00, 0xEE]);
    assert_eq!(chip.tick_with(0, 0), Err(VmError::StackUnderflow));
    assert_eq!(chip.pc(), 0x200);
    assert_eq!(chip.stack_depth(), 0);
}

#[test]
fn stack_overflow() {
    // call 0x200 forever
    let mut chip = CHIP8::new(&[0x22, 0x00]);
    run(&mut chip, 16);
    assert_eq!(chip.stack_depth(), 16);
    assert_eq!(chip.tick_with(0, 0), Err(VmError::StackOverflow));
    assert_eq!(chip.stack_depth(), 16);
    assert_eq!(chip.pc(), 0x200);
}

#[test]
fn sixteen_calls_return_in_order() {
    // 0x200 + 4k: call 0x200 + 4 (k + 1); then: V0 += 1
    let mut rom = Vec::new();
    for k in 0..16u16 {
        let target = 0x200 + 4 * (k + 1);
        rom.extend([0x20 | (target >> 8) as u8, target as u8, 0x70, 0x01]);
    }
    rom.extend([0x00, 0xEE]);
    let mut chip = CHIP8::new(&rom);
    run(&mut chip, 16);
    assert_eq!(chip.stack_depth(), 16);
    assert_eq!(chip.pc(), 0x240);
    run(&mut chip, 2);
    assert_eq!(chip.stack_depth(), 15);
    assert_eq!(chip.register(0), 1);
    assert_eq!(chip.pc(), 0x240);
}

#[test]
fn fetch_past_the_end_of_memory() {
    let mut chip = CHIP8::new(&[0x1F, 0xFF]);
    run(&mut chip, 1);
    assert_eq!(chip.pc(), 0x0FFF);
    assert_eq!(chip.tick_with(0, 0), Err(VmError::MemoryBoundsViolation));
    assert_eq!(chip.pc(), 0x0FFF);
}

#[test]
fn the_last_instruction_in_memory_can_run() {
    let mut rom = vec![0u8; MAX_PROGRAM_SIZE];
    rom[0] = 0x1F;
    rom[1] = 0xFE;
    rom[MAX_PROGRAM_SIZE - 2] = 0x60;
    rom[MAX_PROGRAM_SIZE - 1] = 0x2A;
    let mut chip = CHIP8::new(&rom);
    run(&mut chip, 2);
    assert_eq!(chip.register(0), 0x2A);
    assert_eq!(chip.pc(), 0x1000);
    assert_eq!(chip.tick_with(0, 0), Err(VmError::MemoryBoundsViolation));
}

#[test]
fn memory_bounds_of_the_index_register() {
    // I = 0xFFE: three digits do not fit, two registers do.
    let mut chip = CHIP8::new(&[0xAF, 0xFE, 0xF0, 0x33]);
    run(&mut chip, 1);
    assert_eq!(chip.tick_with(0, 0), Err(VmError::MemoryBoundsViolation));
    assert_eq!(chip.memory(0xFFE), 0);

    let mut chip = CHIP8::new(&[0xAF, 0xFD, 0x60, 123, 0xF0, 0x33]);
    run(&mut chip, 3);
    assert_eq!(chip.memory(0xFFD), 1);
    assert_eq!(chip.memory(0xFFE), 2);
    assert_eq!(chip.memory(0xFFF), 3);

    let mut chip = CHIP8::new(&[0x60, 0x11, 0x61, 0x22, 0xAF, 0xFE, 0xF1, 0x55, 0xF2, 0x55]);
    run(&mut chip, 4);
    assert_eq!(chip.memory(0xFFE), 0x11);
    assert_eq!(chip.memory(0xFFF), 0x22);
    assert_eq!(chip.tick_with(0, 0), Err(VmError::MemoryBoundsViolation));

    let mut chip = CHIP8::new(&[0xAF, 0xFF, 0xF1, 0x65]);
    run(&mut chip, 1);
    assert_eq!(chip.tick_with(0, 0), Err(VmError::MemoryBoundsViolation));

    let mut chip = CHIP8::new(&[0xAF, 0xFF, 0xD0, 0x02]);
    run(&mut chip, 1);
    assert_eq!(chip.tick_with(0, 0), Err(VmError::MemoryBoundsViolation));
    assert!(!chip.draw());

    let mut chip = CHIP8::new(&[0xAF, 0xFF, 0xD0, 0x01]);
    run(&mut chip, 2);
    assert!(chip.draw());
}

#[test]
fn a_fault_leaves_the_machine_as_it_was() {
    // Draw, so that the redraw flag is set, then fault on a return.
    let mut chip = CHIP8::new(&[0x65, 0x3C, 0xF5, 0x15, 0xA2, 0x0A, 0xD0, 0x01, 0x00, 0xEE, 0xFF]);
    run(&mut chip, 4);
    assert!(chip.draw());
    let instruction = chip.instruction();
    assert_eq!(chip.tick_with(5_000_000_000, 0), Err(VmError::StackUnderflow));
    assert!(chip.draw());
    assert_eq!(chip.instruction(), instruction);
    assert_eq!(chip.delay_timer(), 60);
    assert_eq!(chip.pc(), 0x208);
    assert_eq!(lit_cells(&chip).len(), 8);
}

#[test]
fn execute_runs_one_instruction_and_leaves_the_program_counter() {
    let mut chip = CHIP8::new(&[]);
    let mut instruction = Instruction::new();
    instruction.parse(0x6A, 0x42);
    assert_eq!(chip.execute(instruction, 0), Ok(()));
    assert_eq!(chip.register(0xA), 0x42);
    assert_eq!(chip.pc(), 0x200);
    assert_eq!(chip.instruction(), instruction);
    instruction.parse(0x3A, 0x42);
    assert_eq!(chip.execute(instruction, 0), Ok(()));
    assert_eq!(chip.pc(), 0x202);
    instruction.parse(0x13, 0x00);
    assert_eq!(chip.execute(instruction, 0), Ok(()));
    assert_eq!(chip.pc(), 0x300);
    instruction.parse(0xCB, 0xF0);
    assert_eq!(chip.execute(instruction, 0x5A), Ok(()));
    assert_eq!(chip.register(0xB), 0x50);
}

#[test]
fn execute_rejects_what_names_no_operation() {
    let mut chip = CHIP8::new(&[]);
    let before = chip.instruction();
    let unknown = Instruction { opcode: 0x1234, x: 0, y: 0, kk: 0, nnn: 0, n: 0 };
    assert_eq!(chip.execute(unknown, 0), Err(VmError::UnknownOpcode));
    assert_eq!(chip.instruction(), before);
    let reserved = Instruction { opcode: 0xFFFF, x: 0, y: 0, kk: 0, nnn: 0, n: 0 };
    assert_eq!(chip.execute(reserved, 0), Ok(()));
    assert_eq!(chip.pc(), 0x200);
}

#[test]
fn error_messages() {
    assert_eq!(VmError::UnknownOpcode.message(), "unknown opcode");
    assert_eq!(VmError::StackUnderflow.message(), "return with an empty call stack");
    assert_eq!(VmError::StackOverflow.message(), "call with a full call stack");
    assert_eq!(VmError::MemoryBoundsViolation.message(), "memory access out of bounds");
}
