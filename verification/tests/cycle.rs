//! Per-instruction behaviour of `run_cycle`, checked on concrete programs.

use chip_8::Processor;

fn with_rom(rom: &[u8]) -> Processor {
    Processor::with_file(rom).unwrap()
}

fn run(p: &mut Processor, cycles: usize) {
    for _ in 0..cycles {
        p.run_cycle().unwrap();
    }
}

fn px(x: usize, y: usize) -> usize {
    x + y * 64
}

#[test]
fn opcode_fields_match_their_bit_slices() {
    // x is bits 8-11 and kk bits 0-7: 0x6A42 loads 0x42 into VA.
    let mut p = with_rom(&[0x6A, 0x42]);
    run(&mut p, 1);
    assert_eq!(p.registers[0xA], 0x42);
    assert!(p.registers.iter().enumerate().all(|(i, &v)| i == 0xA || v == 0));
    // y is bits 4-7: 0x8AB0 copies VB into VA.
    let mut q = with_rom(&[0x6B, 0x17, 0x8A, 0xB0]);
    run(&mut q, 2);
    assert_eq!(q.registers[0xA], 0x17);
    // nnn is bits 0-11: 0xAFED points the index at 0xFED.
    let mut r = with_rom(&[0xAF, 0xED]);
    run(&mut r, 1);
    assert_eq!(r.index, 0xFED);
    // n is bits 0-3: 0xD005 draws the five rows of glyph 0 (14 set bits).
    let mut s = with_rom(&[0xD0, 0x05]);
    run(&mut s, 1);
    assert_eq!(s.display.iter().filter(|&&px| px).count(), 14);
}

#[test]
fn cls_clears_display_and_marks_dirty() {
    let mut p = with_rom(&[0x00, 0xE0]);
    p.display[0] = true;
    p.display[px(63, 31)] = true;
    p.draw = false;
    run(&mut p, 1);
    assert!(p.display.iter().all(|&px| !px));
    assert!(p.draw);
    assert_eq!(p.program_counter, 0x202);
}

#[test]
fn legacy_sys_opcode_is_a_noop() {
    let mut p = with_rom(&[0x01, 0x23]);
    run(&mut p, 1);
    assert_eq!(p.program_counter, 0x202);
    assert!(p.registers.iter().all(|&v| v == 0));
    assert_eq!(p.stack_pointer, 0);
}

#[test]
fn jump_sets_pc() {
    let mut p = with_rom(&[0x12, 0x34]);
    run(&mut p, 1);
    assert_eq!(p.program_counter, 0x234);
}

#[test]
fn jump_plus_v0_sets_pc() {
    let mut p = with_rom(&[0x60, 0x05, 0xB3, 0x00]);
    run(&mut p, 2);
    assert_eq!(p.program_counter, 0x305);
}

#[test]
fn call_then_return_restores_pc() {
    // 0x200: call 0x300; 0x300: return.
    let mut rom = vec![0u8; 0x102];
    rom[0] = 0x23;
    rom[1] = 0x00;
    rom[0x100] = 0x00;
    rom[0x101] = 0xEE;
    let mut p = with_rom(&rom);
    run(&mut p, 1);
    assert_eq!(p.program_counter, 0x300);
    assert_eq!(p.stack_pointer, 1);
    assert_eq!(p.stack[0], 0x202);
    run(&mut p, 1);
    assert_eq!(p.program_counter, 0x202);
    assert_eq!(p.stack_pointer, 0);
}

#[test]
fn skip_if_equal_immediate() {
    let mut p = with_rom(&[0x60, 0x07, 0x30, 0x07]);
    run(&mut p, 2);
    assert_eq!(p.program_counter, 0x206);
    let mut q = with_rom(&[0x60, 0x07, 0x30, 0x08]);
    run(&mut q, 2);
    assert_eq!(q.program_counter, 0x204);
}

#[test]
fn skip_if_not_equal_immediate() {
    let mut p = with_rom(&[0x60, 0x07, 0x40, 0x08]);
    run(&mut p, 2);
    assert_eq!(p.program_counter, 0x206);
    let mut q = with_rom(&[0x60, 0x07, 0x40, 0x07]);
    run(&mut q, 2);
    assert_eq!(q.program_counter, 0x204);
}

#[test]
fn skip_if_registers_equal_or_not() {
    let mut p = with_rom(&[0x60, 0x07, 0x61, 0x07, 0x50, 0x10]);
    run(&mut p, 3);
    assert_eq!(p.program_counter, 0x208);
    let mut q = with_rom(&[0x60, 0x07, 0x61, 0x08, 0x90, 0x10]);
    run(&mut q, 3);
    assert_eq!(q.program_counter, 0x208);
    let mut r = with_rom(&[0x60, 0x07, 0x61, 0x07, 0x90, 0x10]);
    run(&mut r, 3);
    assert_eq!(r.program_counter, 0x206);
}

#[test]
fn load_immediate_into_register() {
    let mut p = with_rom(&[0x60, 0x05]);
    run(&mut p, 1);
    assert_eq!(p.registers[0], 5);
}

#[test]
fn add_immediate_wraps_without_carry_flag() {
    let mut p = with_rom(&[0x70, 0xFF, 0x70, 0x01]);
    run(&mut p, 1);
    assert_eq!(p.registers[0], 0xFF);
    run(&mut p, 1);
    assert_eq!(p.registers[0], 0x00);
    // The carry flag is only written by 8xy4; 7xkk leaves it alone.
    assert_eq!(p.registers[0xF], 0);
}

#[test]
fn register_move_or_and_xor() {
    let mut p = with_rom(&[0x60, 0x0C, 0x61, 0x0A, 0x80, 0x10]);
    run(&mut p, 3);
    assert_eq!(p.registers[0], 0x0A);
    let mut q = with_rom(&[0x60, 0x0C, 0x61, 0x0A, 0x80, 0x11]);
    run(&mut q, 3);
    assert_eq!(q.registers[0], 0x0C | 0x0A);
    let mut r = with_rom(&[0x60, 0x0C, 0x61, 0x0A, 0x80, 0x12]);
    run(&mut r, 3);
    assert_eq!(r.registers[0], 0x0C & 0x0A);
    let mut s = with_rom(&[0x60, 0x0C, 0x61, 0x0A, 0x80, 0x13]);
    run(&mut s, 3);
    assert_eq!(s.registers[0], 0x0C ^ 0x0A);
}

#[test]
fn add_with_carry_flag() {
    let mut p = with_rom(&[0x60, 0xFF, 0x61, 0x01, 0x80, 0x14]);
    run(&mut p, 3);
    assert_eq!(p.registers[0], 0x00);
    assert_eq!(p.registers[0xF], 1);
    let mut q = with_rom(&[0x60, 0x10, 0x61, 0x01, 0x80, 0x14]);
    run(&mut q, 3);
    assert_eq!(q.registers[0], 0x11);
    assert_eq!(q.registers[0xF], 0);
}

#[test]
fn subtract_with_borrow_flag() {
    let mut p = with_rom(&[0x60, 0x01, 0x61, 0x02, 0x80, 0x15]);
    run(&mut p, 3);
    assert_eq!(p.registers[0], 0xFF);
    assert_eq!(p.registers[0xF], 0);
    let mut q = with_rom(&[0x60, 0x05, 0x61, 0x02, 0x80, 0x15]);
    run(&mut q, 3);
    assert_eq!(q.registers[0], 0x03);
    assert_eq!(q.registers[0xF], 1);
}

#[test]
fn reverse_subtract_with_borrow_flag() {
    let mut p = with_rom(&[0x60, 0x02, 0x61, 0x05, 0x80, 0x17]);
    run(&mut p, 3);
    assert_eq!(p.registers[0], 0x03);
    assert_eq!(p.registers[0xF], 1);
    let mut q = with_rom(&[0x60, 0x05, 0x61, 0x02, 0x80, 0x17]);
    run(&mut q, 3);
    assert_eq!(q.registers[0], 0xFD);
    assert_eq!(q.registers[0xF], 0);
}

#[test]
fn shift_right_reports_low_bit() {
    let mut p = with_rom(&[0x60, 0x05, 0x80, 0x06]);
    run(&mut p, 2);
    assert_eq!(p.registers[0], 0x02);
    assert_eq!(p.registers[0xF], 1);
    let mut q = with_rom(&[0x60, 0x04, 0x80, 0x06]);
    run(&mut q, 2);
    assert_eq!(q.registers[0], 0x02);
    assert_eq!(q.registers[0xF], 0);
}

#[test]
fn shift_left_reports_high_bit_and_wraps() {
    let mut p = with_rom(&[0x60, 0x81, 0x80, 0x0E]);
    run(&mut p, 2);
    assert_eq!(p.registers[0], 0x02);
    assert_eq!(p.registers[0xF], 1);
    let mut q = with_rom(&[0x60, 0x41, 0x80, 0x0E]);
    run(&mut q, 2);
    assert_eq!(q.registers[0], 0x82);
    assert_eq!(q.registers[0xF], 0);
}

#[test]
fn load_index_register() {
    let mut p = with_rom(&[0xA1, 0x23]);
    run(&mut p, 1);
    assert_eq!(p.index, 0x123);
}

#[test]
fn add_register_to_index() {
    let mut p = with_rom(&[0xA1, 0x00, 0x60, 0x2A, 0xF0, 0x1E]);
    run(&mut p, 3);
    assert_eq!(p.index, 0x100 + 0x2A);
}

#[test]
fn random_byte_is_masked() {
    let mut p = with_rom(&[0xC0, 0x00, 0xC1, 0x0F]);
    run(&mut p, 2);
    assert_eq!(p.registers[0], 0);
    assert_eq!(p.registers[1] & 0xF0, 0);
}

#[test]
fn timers_decrement_once_per_cycle() {
    let mut p = with_rom(&[0x00, 0x00, 0x00, 0x00, 0x00, 0x00]);
    p.delay_timer = 2;
    p.sound_timer = 1;
    run(&mut p, 1);
    assert_eq!((p.delay_timer, p.sound_timer), (1, 0));
    run(&mut p, 1);
    assert_eq!((p.delay_timer, p.sound_timer), (0, 0));
    run(&mut p, 1);
    assert_eq!((p.delay_timer, p.sound_timer), (0, 0));
}

#[test]
fn delay_timer_set_and_read_back() {
    // V0 := 5; delay := V0 (then ticks to 4); V1 := delay (reads 4, ticks to 3).
    let mut p = with_rom(&[0x60, 0x05, 0xF0, 0x15, 0xF1, 0x07]);
    run(&mut p, 2);
    assert_eq!(p.delay_timer, 4);
    run(&mut p, 1);
    assert_eq!(p.registers[1], 4);
    assert_eq!(p.delay_timer, 3);
}

#[test]
fn sound_timer_set_from_register() {
    let mut p = with_rom(&[0x60, 0x03, 0xF0, 0x18]);
    run(&mut p, 2);
    assert_eq!(p.sound_timer, 2);
}

#[test]
fn font_address_for_digit() {
    let mut p = with_rom(&[0x60, 0x0A, 0xF0, 0x29]);
    run(&mut p, 2);
    assert_eq!(p.index, 50);
    // The glyph for digit 0 sits at address 0.
    assert_eq!(p.memory[0], 0xF0);
}

#[test]
fn bcd_of_register() {
    let mut p = with_rom(&[0x63, 0x7B, 0xA3, 0x00, 0xF3, 0x33]);
    run(&mut p, 3);
    assert_eq!(p.memory[0x300], 1);
    assert_eq!(p.memory[0x301], 2);
    assert_eq!(p.memory[0x302], 3);
}

#[test]
fn store_and_load_register_block() {
    let mut p = with_rom(&[
        0x60, 0x0A, 0x61, 0x14, 0x62, 0x1E, // V0..V2 := 10, 20, 30
        0xA3, 0x00, 0xF2, 0x55, // store V0..V2 at 0x300
        0x60, 0x00, 0x61, 0x00, 0x62, 0x00, // clear V0..V2
        0xF2, 0x65, // load V0..V2 back
    ]);
    run(&mut p, 5);
    assert_eq!(&p.memory[0x300..0x303], &[10, 20, 30]);
    run(&mut p, 3);
    assert_eq!((p.registers[0], p.registers[1], p.registers[2]), (0, 0, 0));
    run(&mut p, 1);
    assert_eq!((p.registers[0], p.registers[1], p.registers[2]), (10, 20, 30));
    // V3 was never part of the block.
    assert_eq!(p.registers[3], 0);
}

#[test]
fn skip_when_key_pressed_and_not_pressed() {
    let mut p = with_rom(&[0x60, 0x04, 0xE0, 0x9E]);
    p.set_key(4, true);
    run(&mut p, 2);
    assert_eq!(p.program_counter, 0x206);
    let mut q = with_rom(&[0x60, 0x04, 0xE0, 0x9E]);
    run(&mut q, 2);
    assert_eq!(q.program_counter, 0x204);
    let mut r = with_rom(&[0x60, 0x04, 0xE0, 0xA1]);
    run(&mut r, 2);
    assert_eq!(r.program_counter, 0x206);
}

#[test]
fn wait_for_key_rewinds_pc_until_pressed() {
    let mut p = with_rom(&[0xF0, 0x0A]);
    p.delay_timer = 3;
    run(&mut p, 1);
    // Net zero advance: the +2 fetch advance is undone by the -2 rewind.
    assert_eq!(p.program_counter, 0x200);
    // The cycle still ran: timers decremented.
    assert_eq!(p.delay_timer, 2);
    run(&mut p, 1);
    assert_eq!(p.program_counter, 0x200);
    p.set_key(7, true);
    run(&mut p, 1);
    assert_eq!(p.program_counter, 0x202);
    assert_eq!(p.registers[0], 7);
}

#[test]
fn wait_for_key_lowest_index_wins() {
    let mut p = with_rom(&[0xF0, 0x0A]);
    p.set_key(5, true);
    p.set_key(3, true);
    run(&mut p, 1);
    assert_eq!(p.registers[0], 3);
}

#[test]
fn draw_wraps_at_the_edge_and_collides_on_second_draw() {
    // The font glyph for 0 starts with row 0xF0 (four set pixels); draw its
    // top row at column 62, row 31: columns wrap to 62, 63, 0, 1 and the
    // row itself is the display's last.
    let mut p = with_rom(&[0x60, 0x3E, 0x61, 0x1F, 0xD0, 0x11]);
    run(&mut p, 3);
    assert!(p.draw);
    assert_eq!(p.registers[0xF], 0);
    for (x, y, want) in [
        (62, 31, true),
        (63, 31, true),
        (0, 31, true),
        (1, 31, true),
        (2, 31, false),
        (61, 31, false),
        (0, 0, false),
    ] {
        assert_eq!(p.display[px(x, y)], want, "pixel ({}, {})", x, y);
    }
    assert_eq!(p.display.iter().filter(|&&px| px).count(), 4);
    // Draw the same sprite at the same spot again: every pixel toggles
    // back off and the collision flag reports it.
    p.program_counter = 0x204;
    run(&mut p, 1);
    assert_eq!(p.registers[0xF], 1);
    assert!(p.display.iter().all(|&px| !px));
}

#[test]
fn draw_wraps_rows_past_the_bottom() {
    // Two rows drawn starting at the last display row: the second row
    // wraps to row 0. Glyph 0's first two rows are 0xF0, 0x90.
    let mut p = with_rom(&[0x60, 0x00, 0x61, 0x1F, 0xD0, 0x12]);
    run(&mut p, 3);
    assert!(p.display[px(0, 31)]);
    assert!(p.display[px(3, 31)]);
    assert!(p.display[px(0, 0)]);
    assert!(!p.display[px(1, 0)]);
    assert!(p.display[px(3, 0)]);
}

#[test]
fn end_to_end_add_two_registers() {
    let mut p = with_rom(&[0x60, 0x05, 0x61, 0x03, 0x80, 0x14]);
    run(&mut p, 3);
    assert_eq!(p.registers[0], 8);
    assert_eq!(p.registers[15], 0);
}

#[test]
fn cycles_are_deterministic_without_the_random_opcode() {
    let rom = [
        0x60, 0x11, 0x61, 0x2F, 0x80, 0x14, 0x70, 0x01, 0xA2, 0x00, 0xD0, 0x15, 0x30, 0x42, 0x12,
        0x00,
    ];
    let mut p = Processor::with_file(&rom).unwrap();
    let mut q = Processor::with_file(&rom).unwrap();
    for _ in 0..50 {
        p.run_cycle().unwrap();
        q.run_cycle().unwrap();
    }
    assert_eq!(p.memory, q.memory);
    assert_eq!(p.registers, q.registers);
    assert_eq!(p.index, q.index);
    assert_eq!(p.program_counter, q.program_counter);
    assert!(p.display.iter().zip(q.display.iter()).all(|(a, b)| a == b));
    assert_eq!(p.draw, q.draw);
    assert_eq!(p.delay_timer, q.delay_timer);
    assert_eq!(p.sound_timer, q.sound_timer);
    assert_eq!(p.stack, q.stack);
    assert_eq!(p.stack_pointer, q.stack_pointer);
}
