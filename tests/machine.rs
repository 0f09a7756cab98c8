use chip8::chip8::{alu_op, is_supported, Chip8, Chip8Error};
use chip8::semantics::{FONTSET, MAX_PROGRAM_LEN, PROGRAM_START};

fn machine(program: &[u8]) -> Chip8 {
    let mut c = Chip8::new();
    c.load(program.to_vec()).unwrap();
    c
}

fn run(c: &mut Chip8, cycles: usize) {
    for _ in 0..cycles {
        c.step(0).unwrap();
    }
}

#[test]
fn new_machine_holds_font_and_starts_at_program() {
    let c = Chip8::new();
    for a in 0..80 {
        assert_eq!(c.memory_at(a), FONTSET[a]);
    }
    assert_eq!(c.memory_at(80), 0);
    assert_eq!(c.pc(), 0x200);
    assert_eq!(c.sp(), 0);
    assert_eq!(c.index(), 0);
    assert!(!c.draw_flag);
    assert!(c.get_internal_display().iter().all(|&p| p == 0));
    assert_eq!(c.get_internal_display().len(), 2048);
}

#[test]
fn load_places_program_at_start() {
    let c = machine(&[0x12, 0x34, 0x56]);
    assert_eq!(c.memory_at(PROGRAM_START), 0x12);
    assert_eq!(c.memory_at(PROGRAM_START + 2), 0x56);
    assert_eq!(c.memory_at(PROGRAM_START + 3), 0);
}

#[test]
fn load_refuses_oversized_program() {
    let mut c = Chip8::new();
    assert_eq!(c.load(vec![1u8; MAX_PROGRAM_LEN + 1]), Err(Chip8Error::ProgramTooLarge));
    assert_eq!(c.memory_at(PROGRAM_START), 0);
    assert_eq!(c.load(vec![7u8; MAX_PROGRAM_LEN]), Ok(()));
    assert_eq!(c.memory_at(4095), 7);
}

#[test]
fn add_with_carry() {
    let mut c = machine(&[0x63, 250, 0x65, 10, 0x83, 0x54]);
    run(&mut c, 3);
    assert_eq!(c.register(3), 4);
    assert_eq!(c.register(0xF), 1);
    let mut c = machine(&[0x63, 10, 0x65, 5, 0x83, 0x54]);
    run(&mut c, 3);
    assert_eq!(c.register(3), 15);
    assert_eq!(c.register(0xF), 0);
}

#[test]
fn sub_with_borrow() {
    let mut c = machine(&[0x61, 5, 0x62, 10, 0x81, 0x25]);
    run(&mut c, 3);
    assert_eq!(c.register(1), 251);
    assert_eq!(c.register(0xF), 1);
    let mut c = machine(&[0x61, 10, 0x62, 5, 0x81, 0x25]);
    run(&mut c, 3);
    assert_eq!(c.register(1), 5);
    assert_eq!(c.register(0xF), 0);
}

#[test]
fn reverse_sub_and_shifts() {
    let mut c = machine(&[0x61, 5, 0x62, 10, 0x81, 0x27]);
    run(&mut c, 3);
    assert_eq!(c.register(1), 5);
    assert_eq!(c.register(0xF), 0);
    let mut c = machine(&[0x61, 0x81, 0x81, 0x06]);
    run(&mut c, 2);
    assert_eq!(c.register(1), 0x40);
    assert_eq!(c.register(0xF), 1);
    let mut c = machine(&[0x61, 0x81, 0x81, 0x0E]);
    run(&mut c, 2);
    assert_eq!(c.register(1), 0x02);
    assert_eq!(c.register(0xF), 1);
}

#[test]
fn alu_table() {
    assert_eq!(alu_op(0x1, 0b1100, 0b1010), Some((0b1110, None)));
    assert_eq!(alu_op(0x2, 0b1100, 0b1010), Some((0b1000, None)));
    assert_eq!(alu_op(0x3, 0b1100, 0b1010), Some((0b0110, None)));
    assert_eq!(alu_op(0x4, 255, 1), Some((0, Some(true))));
    assert_eq!(alu_op(0xE, 0x40, 0), Some((0x80, Some(false))));
    assert_eq!(alu_op(0x8, 1, 2), None);
}

#[test]
fn clear_screen_blanks_every_pixel() {
    // draw glyph 0 at (0, 0), then clear
    let mut c = machine(&[0xA0, 0x00, 0xD0, 0x05, 0x00, 0xE0]);
    run(&mut c, 2);
    assert!(c.get_internal_display().iter().any(|&p| p == 1));
    c.draw_flag = false;
    run(&mut c, 1);
    assert!(c.draw_flag);
    assert!(c.get_internal_display().iter().all(|&p| p == 0));
}

#[test]
fn draw_xors_and_reports_collision() {
    let mut c = machine(&[0xA0, 0x00, 0xD0, 0x05, 0xD0, 0x05]);
    run(&mut c, 2);
    let g = c.get_internal_display();
    // top row of glyph 0 is 0xF0
    assert_eq!(&g[0..8], &[1, 1, 1, 1, 0, 0, 0, 0]);
    // second row is 0x90
    assert_eq!(&g[64..72], &[1, 0, 0, 1, 0, 0, 0, 0]);
    assert_eq!(c.register(0xF), 0);
    run(&mut c, 1);
    assert_eq!(c.register(0xF), 1);
    assert!(c.get_internal_display().iter().all(|&p| p == 0));
}

#[test]
fn draw_wraps_around_screen_edges() {
    // V0 = 62, V1 = 31, draw glyph 0 (5 rows) there
    let mut c = machine(&[0x60, 62, 0x61, 31, 0xA0, 0x00, 0xD0, 0x15]);
    run(&mut c, 4);
    let g = c.get_internal_display();
    // row 0 of the sprite at y = 31: columns 62, 63, 0, 1
    assert_eq!(g[62 + 31 * 64], 1);
    assert_eq!(g[63 + 31 * 64], 1);
    assert_eq!(g[31 * 64], 1);
    assert_eq!(g[1 + 31 * 64], 1);
    assert_eq!(g[2 + 31 * 64], 0);
    // row 1 (0x90) wraps to y = 0: columns 62 and 1
    assert_eq!(g[62], 1);
    assert_eq!(g[63], 0);
    assert_eq!(g[0], 0);
    assert_eq!(g[1], 1);
}

#[test]
fn call_then_return_resumes_after_call() {
    // 0x200: call 0x206; 0x202: V0 = 7; 0x206: return
    let mut c = machine(&[0x22, 0x06, 0x60, 0x07, 0x00, 0x00, 0x00, 0xEE]);
    run(&mut c, 1);
    assert_eq!(c.pc(), 0x206);
    assert_eq!(c.sp(), 1);
    run(&mut c, 1);
    assert_eq!(c.pc(), 0x202);
    assert_eq!(c.sp(), 0);
    run(&mut c, 1);
    assert_eq!(c.register(0), 7);
}

#[test]
fn return_on_empty_stack_underflows() {
    let mut c = machine(&[0x00, 0xEE]);
    assert_eq!(c.step(0), Err(Chip8Error::StackUnderflow));
    assert_eq!(c.pc(), 0x200);
}

#[test]
fn seventeenth_nested_call_overflows() {
    let mut c = machine(&[0x22, 0x00]);
    run(&mut c, 16);
    assert_eq!(c.sp(), 16);
    assert_eq!(c.step(0), Err(Chip8Error::StackOverflow));
    assert_eq!(c.sp(), 16);
}

#[test]
fn fetch_past_memory_end_fails() {
    let mut c = machine(&[0x1F, 0xFF]);
    run(&mut c, 1);
    assert_eq!(c.pc(), 0xFFF);
    assert_eq!(c.step(0), Err(Chip8Error::OutOfBoundsFetch));
    assert_eq!(c.pc(), 0xFFF);
}

#[test]
fn store_then_load_round_trips() {
    // V0..V2 = 1, 2, 3; I = 0x300; store; clear V0..V2; load
    let prog = [
        0x60, 1, 0x61, 2, 0x62, 3, 0xA3, 0x00, 0xF2, 0x55, 0x60, 0, 0x61, 0, 0x62, 0, 0xF2, 0x65,
    ];
    let mut c = machine(&prog);
    run(&mut c, 5);
    assert_eq!(c.memory_at(0x300), 1);
    assert_eq!(c.memory_at(0x302), 3);
    assert_eq!(c.memory_at(0x303), 0);
    assert_eq!(c.memory_at(0x2FF), 0);
    run(&mut c, 4);
    assert_eq!(c.register(0), 1);
    assert_eq!(c.register(1), 2);
    assert_eq!(c.register(2), 3);
}

#[test]
fn index_load_masks_and_add_does_not_fault() {
    let mut c = machine(&[0xAF, 0xFF, 0x60, 0xFF, 0xF0, 0x1E]);
    run(&mut c, 1);
    assert_eq!(c.index(), 0xFFF);
    run(&mut c, 2);
    assert_eq!(c.index(), 0x10FE);
}

#[test]
fn store_wraps_at_memory_end() {
    // I = 0xFFF, V0 = 9, V1 = 8, store V0..V1: second byte wraps to 0
    let mut c = machine(&[0xAF, 0xFF, 0x60, 9, 0x61, 8, 0xF1, 0x55]);
    run(&mut c, 4);
    assert_eq!(c.memory_at(0xFFF), 9);
    assert_eq!(c.memory_at(0), 8);
}

#[test]
fn delay_timer_counts_down_to_zero() {
    let mut c = machine(&[0x60, 2, 0xF0, 0x15, 0x61, 0, 0x61, 0]);
    run(&mut c, 2);
    assert_eq!(c.delay_timer(), 1);
    run(&mut c, 1);
    assert_eq!(c.delay_timer(), 0);
    run(&mut c, 1);
    assert_eq!(c.delay_timer(), 0);
}

#[test]
fn delay_timer_read_back() {
    let mut c = machine(&[0x60, 9, 0xF0, 0x15, 0xF3, 0x07]);
    run(&mut c, 3);
    // set to 9, ticked to 8, read before the next tick
    assert_eq!(c.register(3), 8);
    assert_eq!(c.delay_timer(), 7);
}

#[test]
fn sound_timer_reports_beep_once() {
    let mut c = machine(&[0x60, 2, 0xF0, 0x18, 0x61, 0, 0x61, 0]);
    assert!(!c.step(0).unwrap().beep);
    assert!(!c.step(0).unwrap().beep);
    assert_eq!(c.sound_timer(), 1);
    assert!(c.step(0).unwrap().beep);
    assert_eq!(c.sound_timer(), 0);
    assert!(!c.step(0).unwrap().beep);
}

#[test]
fn three_instruction_program() {
    let mut c = machine(&[0x60, 0x0A, 0x61, 0x05, 0x80, 0x14]);
    run(&mut c, 3);
    assert_eq!(c.register(0), 15);
    assert_eq!(c.register(0xF), 0);
    assert_eq!(c.pc(), 0x206);
}

#[test]
fn unsupported_opcode_is_a_no_op() {
    let mut c = machine(&[0x51, 0x21, 0xE0, 0xFF, 0x00, 0x00]);
    let r = c.step(0).unwrap();
    assert_eq!(r.opcode, 0x5121);
    assert!(!r.supported);
    assert_eq!(c.pc(), 0x202);
    assert!(!c.step(0).unwrap().supported);
    assert!(!c.step(0).unwrap().supported);
    assert_eq!(c.pc(), 0x206);
    assert!(is_supported(0x00E0));
    assert!(is_supported(0xF165));
    assert!(!is_supported(0xF166));
    assert!(!is_supported(0x8008));
}

#[test]
fn skips_on_register_compare() {
    // V0 = 5; skip if V0 == 5 -> pc 0x206
    let mut c = machine(&[0x60, 5, 0x30, 5]);
    run(&mut c, 2);
    assert_eq!(c.pc(), 0x206);
    let mut c = machine(&[0x60, 5, 0x40, 5]);
    run(&mut c, 2);
    assert_eq!(c.pc(), 0x204);
    let mut c = machine(&[0x60, 5, 0x61, 5, 0x50, 0x10]);
    run(&mut c, 3);
    assert_eq!(c.pc(), 0x208);
    let mut c = machine(&[0x60, 5, 0x61, 5, 0x90, 0x10]);
    run(&mut c, 3);
    assert_eq!(c.pc(), 0x206);
}

#[test]
fn add_immediate_wraps_without_flag() {
    let mut c = machine(&[0x60, 250, 0x6F, 7, 0x70, 10]);
    run(&mut c, 3);
    assert_eq!(c.register(0), 4);
    assert_eq!(c.register(0xF), 7);
}

#[test]
fn jump_with_offset() {
    let mut c = machine(&[0x60, 4, 0xB3, 0x00]);
    run(&mut c, 2);
    assert_eq!(c.pc(), 0x304);
}

#[test]
fn random_byte_is_masked() {
    let mut c = machine(&[0xC0, 0x0F]);
    c.step(0xAB).unwrap();
    assert_eq!(c.register(0), 0x0B);
}

#[test]
fn emulate_cycle_draws_below_255() {
    for _ in 0..64 {
        let mut c = machine(&[0xC0, 0xFF]);
        let r = c.emulate_cycle().unwrap();
        assert_eq!(r.opcode, 0xC0FF);
        assert!(c.register(0) < 255);
        assert_eq!(c.pc(), 0x202);
    }
}

#[test]
fn font_glyph_address_and_bcd() {
    let mut c = machine(&[0x60, 0x0A, 0xF0, 0x29, 0x61, 234, 0xA3, 0x00, 0xF1, 0x33]);
    run(&mut c, 2);
    assert_eq!(c.index(), 50);
    run(&mut c, 3);
    assert_eq!(c.memory_at(0x300), 2);
    assert_eq!(c.memory_at(0x301), 3);
    assert_eq!(c.memory_at(0x302), 4);
}

#[test]
fn key_wait_holds_until_a_key_is_pressed() {
    let mut c = machine(&[0xF4, 0x0A]);
    run(&mut c, 2);
    assert_eq!(c.pc(), 0x200);
    assert!(c.awaiting_key());
    c.input.set_key(0x9, true);
    c.input.set_key(0x5, true);
    run(&mut c, 1);
    assert_eq!(c.register(4), 5);
    assert_eq!(c.pc(), 0x202);
    assert!(!c.awaiting_key());
}

#[test]
fn key_skips() {
    let mut c = machine(&[0x60, 0x7, 0xE0, 0x9E]);
    c.input.set_key(0x7, true);
    run(&mut c, 2);
    assert_eq!(c.pc(), 0x206);
    let mut c = machine(&[0x60, 0x7, 0xE0, 0xA1]);
    run(&mut c, 2);
    assert_eq!(c.pc(), 0x206);
    // a register value past the keypad is a key never held
    let mut c = machine(&[0x60, 200, 0xE0, 0x9E]);
    run(&mut c, 2);
    assert_eq!(c.pc(), 0x204);
}

#[test]
fn reset_restores_initial_state_and_keeps_keys() {
    let mut c = machine(&[0x60, 3, 0xA4, 0x00, 0xD0, 0x05]);
    c.input.set_key(2, true);
    run(&mut c, 3);
    c.reset();
    assert_eq!(c.pc(), 0x200);
    assert_eq!(c.register(0), 0);
    assert_eq!(c.index(), 0);
    assert_eq!(c.memory_at(PROGRAM_START), 0);
    assert_eq!(c.memory_at(0), FONTSET[0]);
    assert!(c.get_internal_display().iter().all(|&p| p == 0));
    assert!(c.input.pressed(2));
}

#[test]
fn debug_memory_copies_all_bytes() {
    let c = machine(&[0xAB]);
    let m = c.debug_memory();
    assert_eq!(m.len(), 4096);
    assert_eq!(m[0x200], 0xAB);
    assert_eq!(m[0], 0xF0);
}

#[test]
fn opcodes_runs_current_instruction() {
    let mut c = machine(&[0x6A, 0x42]);
    c.step(0).unwrap();
    assert_eq!(c.opcode(), 0x6A42);
    assert_eq!(c.register(0xA), 0x42);
    c.opcodes(0).unwrap();
    assert_eq!(c.pc(), 0x204);
}
