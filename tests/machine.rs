use chip8::cpu::State;
use chip8::opcode::Opcode;
use chip8::semantics::{Fault, Outcome};

fn run(s: &mut State, a: u8, b: u8) -> Outcome {
    s.execute(Opcode::from(a, b), 0).unwrap()
}

fn lit_count(s: &State) -> usize {
    let mut n = 0;
    for y in 0..32 {
        for x in 0..64 {
            if s.pixel(x, y) {
                n += 1;
            }
        }
    }
    n
}

#[test]
fn new_machine_holds_font_and_starts_at_program() {
    let s = State::new();
    assert_eq!(s.pc(), 0x200);
    assert_eq!(s.index(), 0x200);
    assert_eq!(s.memory_at(0), 0xF0);
    assert_eq!(s.memory_at(5), 0x20);
    assert_eq!(s.memory_at(79), 0x80);
    assert_eq!(s.memory_at(80), 0);
    assert_eq!(s.stack_depth(), 0);
    assert_eq!(lit_count(&s), 0);
}

#[test]
fn add_sets_carry() {
    let mut s = State::new();
    run(&mut s, 0x61, 0xFF);
    run(&mut s, 0x62, 0x01);
    run(&mut s, 0x81, 0x24);
    assert_eq!(s.register(1), 0x00);
    assert_eq!(s.register(15), 1);
    run(&mut s, 0x61, 0x01);
    run(&mut s, 0x81, 0x24);
    assert_eq!(s.register(1), 0x02);
    assert_eq!(s.register(15), 0);
}

#[test]
fn sub_sets_borrow_status() {
    let mut s = State::new();
    run(&mut s, 0x61, 0x05);
    run(&mut s, 0x62, 0x0A);
    run(&mut s, 0x81, 0x25);
    assert_eq!(s.register(1), 0xFB);
    assert_eq!(s.register(15), 0);
    run(&mut s, 0x61, 0x0A);
    run(&mut s, 0x62, 0x05);
    run(&mut s, 0x81, 0x25);
    assert_eq!(s.register(1), 0x05);
    assert_eq!(s.register(15), 1);
}

#[test]
fn reverse_sub_and_equal_operands() {
    let mut s = State::new();
    run(&mut s, 0x61, 0x05);
    run(&mut s, 0x62, 0x0A);
    run(&mut s, 0x81, 0x27);
    assert_eq!(s.register(1), 0x05);
    assert_eq!(s.register(15), 1);
    run(&mut s, 0x63, 0x07);
    run(&mut s, 0x64, 0x07);
    run(&mut s, 0x83, 0x45);
    assert_eq!(s.register(3), 0);
    assert_eq!(s.register(15), 0);
}

#[test]
fn logic_and_shifts() {
    let mut s = State::new();
    run(&mut s, 0x61, 0b1100_0101);
    run(&mut s, 0x62, 0b1010_0011);
    run(&mut s, 0x83, 0x10);
    run(&mut s, 0x83, 0x21);
    assert_eq!(s.register(3), 0b1110_0111);
    run(&mut s, 0x84, 0x10);
    run(&mut s, 0x84, 0x22);
    assert_eq!(s.register(4), 0b1000_0001);
    run(&mut s, 0x85, 0x10);
    run(&mut s, 0x85, 0x23);
    assert_eq!(s.register(5), 0b0110_0110);
    run(&mut s, 0x81, 0x06);
    assert_eq!(s.register(1), 0b0110_0010);
    assert_eq!(s.register(15), 1);
    run(&mut s, 0x82, 0x0E);
    assert_eq!(s.register(2), 0b0100_0110);
    assert_eq!(s.register(15), 1);
    run(&mut s, 0x82, 0x0E);
    assert_eq!(s.register(2), 0b1000_1100);
    assert_eq!(s.register(15), 0);
}

#[test]
fn add_immediate_wraps_without_flag() {
    let mut s = State::new();
    run(&mut s, 0x6F, 0x07);
    run(&mut s, 0x61, 0xF0);
    run(&mut s, 0x71, 0x20);
    assert_eq!(s.register(1), 0x10);
    assert_eq!(s.register(15), 0x07);
}

#[test]
fn skips_jumps_calls_and_returns() {
    let mut s = State::new();
    run(&mut s, 0x61, 0x42);
    run(&mut s, 0x31, 0x42);
    assert_eq!(s.pc(), 0x202);
    run(&mut s, 0x41, 0x42);
    assert_eq!(s.pc(), 0x202);
    run(&mut s, 0x62, 0x42);
    run(&mut s, 0x51, 0x20);
    assert_eq!(s.pc(), 0x204);
    run(&mut s, 0x91, 0x20);
    assert_eq!(s.pc(), 0x204);
    run(&mut s, 0x13, 0x45);
    assert_eq!(s.pc(), 0x345);
    run(&mut s, 0x26, 0x00);
    assert_eq!(s.pc(), 0x600);
    assert_eq!(s.stack_depth(), 1);
    run(&mut s, 0x00, 0xEE);
    assert_eq!(s.pc(), 0x345);
    assert_eq!(s.stack_depth(), 0);
    run(&mut s, 0x60, 0x10);
    run(&mut s, 0xB3, 0x00);
    assert_eq!(s.pc(), 0x310);
}

#[test]
fn return_with_empty_stack_faults() {
    let mut s = State::new();
    let r = s.execute(Opcode::from(0x00, 0xEE), 0);
    assert_eq!(r, Err(Fault::EmptyStack));
    assert_eq!(s.pc(), 0x200);
}

#[test]
fn fetch_reads_word_and_advances() {
    let mut s = State::new();
    s.load_rom(&[0xAB, 0xCD, 0x12]);
    let op = s.fetch().unwrap();
    assert_eq!((op.c, op.x, op.y, op.n, op.nn, op.nnn), (0xA, 0xB, 0xC, 0xD, 0xCD, 0xBCD));
    assert_eq!(s.pc(), 0x202);
    assert_eq!(s.memory_at(0x202), 0x12);
}

#[test]
fn fetch_past_memory_faults() {
    let mut s = State::new();
    run(&mut s, 0x1F, 0xFE);
    assert!(s.fetch().is_ok());
    assert_eq!(s.pc(), 0x1000);
    assert_eq!(s.fetch(), Err(Fault::PcOutOfRange));
    run(&mut s, 0x1F, 0xFF);
    assert_eq!(s.fetch(), Err(Fault::PcOutOfRange));
    assert_eq!(s.pc(), 0xFFF);
}

#[test]
fn draw_twice_restores_display() {
    let mut s = State::new();
    run(&mut s, 0x61, 10);
    run(&mut s, 0x62, 5);
    run(&mut s, 0xA0, 0x00);
    assert_eq!(run(&mut s, 0xD1, 0x25), Outcome::Drew);
    assert_eq!(s.register(15), 0);
    assert_eq!(lit_count(&s), 14);
    assert!(s.pixel(10, 5));
    assert!(!s.pixel(11, 6));
    run(&mut s, 0xD1, 0x25);
    assert_eq!(s.register(15), 1);
    assert_eq!(lit_count(&s), 0);
}

#[test]
fn draw_over_lit_cells_reports_collision() {
    let mut s = State::new();
    run(&mut s, 0xA0, 0x00);
    run(&mut s, 0xD0, 0x11);
    assert_eq!(s.register(15), 0);
    assert_eq!(lit_count(&s), 4);
    run(&mut s, 0x60, 4);
    run(&mut s, 0xD0, 0x11);
    assert_eq!(s.register(15), 0);
    assert_eq!(lit_count(&s), 8);
    run(&mut s, 0x60, 0);
    run(&mut s, 0xD0, 0x11);
    assert_eq!(s.register(15), 1);
    assert_eq!(lit_count(&s), 4);
}

#[test]
fn draw_clips_at_right_edge() {
    let mut s = State::new();
    s.load_rom(&[0xFF]);
    run(&mut s, 0x61, 60);
    run(&mut s, 0x62, 0);
    run(&mut s, 0xA2, 0x00);
    run(&mut s, 0xD1, 0x21);
    for x in 60..64 {
        assert!(s.pixel(x, 0));
    }
    for x in 0..4 {
        assert!(!s.pixel(x, 0));
        assert!(!s.pixel(x, 1));
    }
    assert_eq!(lit_count(&s), 4);
}

#[test]
fn draw_clips_at_bottom_and_wraps_origin() {
    let mut s = State::new();
    s.load_rom(&[0xFF, 0xFF, 0xFF]);
    run(&mut s, 0x61, 64 + 2);
    run(&mut s, 0x62, 32 + 30);
    run(&mut s, 0xA2, 0x00);
    run(&mut s, 0xD1, 0x23);
    assert!(s.pixel(2, 30));
    assert!(s.pixel(9, 31));
    assert!(!s.pixel(2, 0));
    assert_eq!(lit_count(&s), 16);
}

#[test]
fn draw_past_memory_faults() {
    let mut s = State::new();
    run(&mut s, 0xAF, 0xFE);
    let r = s.execute(Opcode::from(0xD0, 0x05), 0);
    assert_eq!(r, Err(Fault::IndexOutOfRange));
    assert_eq!(lit_count(&s), 0);
    assert_eq!(s.execute(Opcode::from(0xD0, 0x02), 0), Ok(Outcome::Drew));
}

#[test]
fn clear_twice_leaves_display_dark() {
    let mut s = State::new();
    run(&mut s, 0xA0, 0x00);
    run(&mut s, 0xD0, 0x05);
    assert!(lit_count(&s) > 0);
    assert_eq!(run(&mut s, 0x00, 0xE0), Outcome::Cleared);
    assert_eq!(lit_count(&s), 0);
    assert_eq!(run(&mut s, 0x00, 0xE0), Outcome::Cleared);
    assert_eq!(lit_count(&s), 0);
}

#[test]
fn wait_for_key_repeats_until_pressed() {
    let mut s = State::new();
    s.load_rom(&[0xF3, 0x0A]);
    for _ in 0..3 {
        let op = s.fetch().unwrap();
        assert_eq!(s.process(op), Ok(Outcome::Done));
        assert_eq!(s.pc(), 0x200);
        assert!(s.is_waiting());
    }
    s.key_moved(9, true);
    s.key_moved(5, true);
    assert!(s.key(5));
    let op = s.fetch().unwrap();
    s.process(op).unwrap();
    assert_eq!(s.register(3), 5);
    assert_eq!(s.pc(), 0x202);
    assert!(!s.is_waiting());
}

#[test]
fn key_skips() {
    let mut s = State::new();
    run(&mut s, 0x61, 0x0C);
    run(&mut s, 0xE1, 0x9E);
    assert_eq!(s.pc(), 0x200);
    run(&mut s, 0xE1, 0xA1);
    assert_eq!(s.pc(), 0x202);
    s.key_moved(0x0C, true);
    run(&mut s, 0xE1, 0x9E);
    assert_eq!(s.pc(), 0x204);
    run(&mut s, 0xE1, 0xA1);
    assert_eq!(s.pc(), 0x204);
    s.key_moved(0x0C, false);
    assert!(!s.key(0x0C));
    run(&mut s, 0x62, 0x20);
    run(&mut s, 0xE2, 0xA1);
    assert_eq!(s.pc(), 0x206);
}

#[test]
fn timers_count_down_to_zero() {
    let mut s = State::new();
    run(&mut s, 0x61, 2);
    run(&mut s, 0xF1, 0x15);
    run(&mut s, 0xF1, 0x18);
    assert_eq!((s.delay(), s.sound()), (2, 2));
    s.decrement();
    assert_eq!((s.delay(), s.sound()), (1, 1));
    s.decrement();
    s.decrement();
    assert_eq!((s.delay(), s.sound()), (0, 0));
    run(&mut s, 0x62, 7);
    run(&mut s, 0xF2, 0x15);
    s.decrement();
    run(&mut s, 0xF4, 0x07);
    assert_eq!(s.register(4), 6);
    assert_eq!(s.sound(), 0);
}

#[test]
fn index_arithmetic_and_font_glyphs() {
    let mut s = State::new();
    run(&mut s, 0xA1, 0x00);
    run(&mut s, 0x61, 0x34);
    run(&mut s, 0xF1, 0x1E);
    assert_eq!(s.index(), 0x134);
    run(&mut s, 0x62, 0x0B);
    run(&mut s, 0xF2, 0x29);
    assert_eq!(s.index(), 55);
    assert_eq!(s.memory_at(55), 0xE0);
    run(&mut s, 0x62, 0x1F);
    run(&mut s, 0xF2, 0x29);
    assert_eq!(s.index(), 75);
}

#[test]
fn decimal_digits() {
    let mut s = State::new();
    run(&mut s, 0xA3, 0x00);
    run(&mut s, 0x61, 254);
    run(&mut s, 0xF1, 0x33);
    assert_eq!((s.memory_at(0x300), s.memory_at(0x301), s.memory_at(0x302)), (2, 5, 4));
    run(&mut s, 0x61, 7);
    run(&mut s, 0xF1, 0x33);
    assert_eq!((s.memory_at(0x300), s.memory_at(0x301), s.memory_at(0x302)), (0, 0, 7));
    assert_eq!(s.index(), 0x300);
    run(&mut s, 0xAF, 0xFE);
    assert_eq!(s.execute(Opcode::from(0xF1, 0x33), 0), Err(Fault::IndexOutOfRange));
}

#[test]
fn store_and_load_registers() {
    let mut s = State::new();
    for x in 0..16u8 {
        run(&mut s, 0x60 | x, x * 3 + 1);
    }
    run(&mut s, 0xA4, 0x00);
    run(&mut s, 0xFF, 0x55);
    assert_eq!(s.index(), 0x400);
    for x in 0..16u16 {
        assert_eq!(s.memory_at(0x400 + x), x as u8 * 3 + 1);
    }
    assert_eq!(s.memory_at(0x410), 0);
    for x in 0..16u8 {
        run(&mut s, 0x60 | x, 0);
    }
    run(&mut s, 0xF0, 0x65);
    for x in 0..16u8 {
        assert_eq!(s.register(x), x * 3 + 1);
    }
    assert_eq!(s.index(), 0x400);
    run(&mut s, 0xAF, 0xF1);
    assert_eq!(s.execute(Opcode::from(0xF0, 0x55), 0), Err(Fault::IndexOutOfRange));
    assert_eq!(s.execute(Opcode::from(0xF0, 0x65), 0), Err(Fault::IndexOutOfRange));
    run(&mut s, 0xAF, 0xF0);
    assert_eq!(s.execute(Opcode::from(0xF0, 0x65), 0), Ok(Outcome::Done));
}

#[test]
fn random_byte_is_masked() {
    let mut s = State::new();
    run(&mut s, 0x61, 0xFF);
    s.execute(Opcode::from(0xC1, 0x0F), 0xAB).unwrap();
    assert_eq!(s.register(1), 0x0B);
    s.process(Opcode::from(0xC1, 0x00)).unwrap();
    assert_eq!(s.register(1), 0);
    s.process(Opcode::from(0xC1, 0x0F)).unwrap();
    assert!(s.register(1) <= 0x0F);
}

#[test]
fn unknown_words_are_reported_and_skipped() {
    let mut s = State::new();
    assert_eq!(run(&mut s, 0x01, 0x23), Outcome::Unrecognized);
    assert_eq!(run(&mut s, 0x81, 0x28), Outcome::Unrecognized);
    assert_eq!(run(&mut s, 0xE1, 0x00), Outcome::Unrecognized);
    assert_eq!(run(&mut s, 0xF1, 0xFF), Outcome::Unrecognized);
    assert_eq!(s.pc(), 0x200);
}

#[test]
fn load_rom_places_image_at_program_start() {
    let mut s = State::new();
    run(&mut s, 0x13, 0x00);
    s.load_rom(&[1, 2, 3]);
    assert_eq!(s.pc(), 0x200);
    assert_eq!(s.index(), 0x200);
    assert_eq!((s.memory_at(0x200), s.memory_at(0x201), s.memory_at(0x202)), (1, 2, 3));
    assert_eq!(s.memory_at(0x1FF), 0);
}
