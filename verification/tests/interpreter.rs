//! Tests for the fetch/decode/execute core: arithmetic, control flow,
//! memory operations, key input, and the error policy.

use chip8::emulator::Emulator;
use chip8::model::Chip8Error;

#[test]
fn fetch_is_big_endian() {
    let mut e = Emulator::new();
    e.execute_program(&[0xA2, 0x34]).unwrap();
    assert_eq!(e.pc, 0x200);
    let word = e.fetch().unwrap();
    assert_eq!(word, 0xA234);
    assert_eq!(e.pc, 0x202);
}

#[test]
fn step_executes_fetched_word() {
    let mut e = Emulator::new();
    e.execute_program(&[0xA2, 0x34]).unwrap();
    e.execute_next_instruction().unwrap();
    assert_eq!(e.index, 0x234);
    assert_eq!(e.pc, 0x202);
}

#[test]
fn set_then_read_register() {
    let mut e = Emulator::new();
    e.execute(0x6A42).unwrap();
    assert_eq!(e.reg(0xA), 0x42);
}

#[test]
fn add_twice_wraps_and_leaves_flag() {
    let mut e = Emulator::new();
    e.execute(0x65FA).unwrap(); // register 5 = 250
    e.execute(0x750A).unwrap();
    assert_eq!(e.reg(5), 4); // 250 + 10 wraps to 4
    e.execute(0x750A).unwrap();
    assert_eq!(e.reg(5), 14); // and the second add accumulates mod 256
    assert_eq!(e.reg(0xF), 0); // flag untouched by 7xnn
}

#[test]
fn add_registers_with_carry() {
    let mut e = Emulator::new();
    e.execute(0x64C8).unwrap(); // register 4 = 200
    e.execute(0x65C8).unwrap(); // register 5 = 200
    e.execute(0x8454).unwrap();
    assert_eq!(e.reg(4), 144); // 400 wraps to 144
    assert_eq!(e.reg(0xF), 1);
}

#[test]
fn add_registers_without_carry_clears_flag() {
    let mut e = Emulator::new();
    e.execute(0x6405).unwrap();
    e.execute(0x650A).unwrap();
    e.execute(0x6F01).unwrap(); // dirty flag
    e.execute(0x8454).unwrap();
    assert_eq!(e.reg(4), 15);
    assert_eq!(e.reg(0xF), 0);
}

#[test]
fn subtract_sets_borrow_flag() {
    let mut e = Emulator::new();
    e.execute(0x640A).unwrap();
    e.execute(0x6503).unwrap();
    e.execute(0x8455).unwrap(); // 10 - 3
    assert_eq!(e.reg(4), 7);
    assert_eq!(e.reg(0xF), 1);

    e.execute(0x6403).unwrap();
    e.execute(0x650A).unwrap();
    e.execute(0x8455).unwrap(); // 3 - 10 wraps
    assert_eq!(e.reg(4), 249);
    assert_eq!(e.reg(0xF), 0);
}

#[test]
fn reverse_subtract() {
    let mut e = Emulator::new();
    e.execute(0x6403).unwrap();
    e.execute(0x650A).unwrap();
    e.execute(0x8457).unwrap(); // 10 - 3, flag from vy > vx
    assert_eq!(e.reg(4), 7);
    assert_eq!(e.reg(0xF), 1);
}

#[test]
fn shifts_expose_edge_bits() {
    let mut e = Emulator::new();
    e.execute(0x6405).unwrap();
    e.execute(0x8406).unwrap(); // 5 >> 1
    assert_eq!(e.reg(4), 2);
    assert_eq!(e.reg(0xF), 1); // low bit of 5

    e.execute(0x6481).unwrap();
    e.execute(0x840E).unwrap(); // 0x81 << 1 wraps
    assert_eq!(e.reg(4), 2);
    assert_eq!(e.reg(0xF), 1); // high bit of 0x81
}

#[test]
fn bitwise_group() {
    let mut e = Emulator::new();
    e.execute(0x64C3).unwrap();
    e.execute(0x650F).unwrap();
    e.execute(0x8451).unwrap(); // or
    assert_eq!(e.reg(4), 0xCF);
    e.execute(0x64C3).unwrap();
    e.execute(0x8452).unwrap(); // and
    assert_eq!(e.reg(4), 0x03);
    e.execute(0x64C3).unwrap();
    e.execute(0x8453).unwrap(); // xor
    assert_eq!(e.reg(4), 0xCC);
    e.execute(0x8450).unwrap(); // copy
    assert_eq!(e.reg(4), 0x0F);
}

#[test]
fn jump_sets_program_counter() {
    let mut e = Emulator::new();
    e.execute(0x1ABC).unwrap();
    assert_eq!(e.pc, 0xABC);
}

#[test]
fn jump_with_offset_adds_register_zero() {
    let mut e = Emulator::new();
    e.execute(0x6005).unwrap();
    e.execute(0xB300).unwrap();
    assert_eq!(e.pc, 0x305);
}

#[test]
fn call_then_return_restores_pc() {
    let mut e = Emulator::new();
    // 0x200: call 0x204;  0x204: return
    e.execute_program(&[0x22, 0x04, 0x00, 0x00, 0x00, 0xEE]).unwrap();
    e.execute_next_instruction().unwrap();
    assert_eq!(e.pc, 0x204);
    assert_eq!(e.stack_len(), 1);
    e.execute_next_instruction().unwrap();
    assert_eq!(e.pc, 0x202); // right after the call word
    assert_eq!(e.stack_len(), 0);
}

#[test]
fn return_with_empty_stack_is_a_noop() {
    let mut e = Emulator::new();
    e.execute(0x1300).unwrap();
    e.execute(0x00EE).unwrap();
    assert_eq!(e.pc, 0x300);
    assert_eq!(e.stack_len(), 0);
}

#[test]
fn skip_family() {
    let mut e = Emulator::new();
    e.execute(0x6407).unwrap();
    e.execute(0x3407).unwrap(); // equal immediate: skip
    assert_eq!(e.pc, 2);
    e.execute(0x3408).unwrap(); // unequal: no skip
    assert_eq!(e.pc, 2);
    e.execute(0x4408).unwrap(); // unequal immediate: skip
    assert_eq!(e.pc, 4);
    e.execute(0x6507).unwrap();
    e.execute(0x5450).unwrap(); // equal registers: skip
    assert_eq!(e.pc, 6);
    e.execute(0x9450).unwrap(); // equal registers: no skip
    assert_eq!(e.pc, 6);
    e.execute(0x6508).unwrap();
    e.execute(0x9450).unwrap(); // unequal registers: skip
    assert_eq!(e.pc, 8);
}

#[test]
fn index_register_family() {
    let mut e = Emulator::new();
    e.execute(0xA123).unwrap();
    assert_eq!(e.index, 0x123);
    e.execute(0x6405).unwrap();
    e.execute(0xF41E).unwrap();
    assert_eq!(e.index, 0x128);
    assert_eq!(e.reg(0xF), 0); // no overflow past 0xFFF

    e.execute(0xAFFF).unwrap();
    e.execute(0x6401).unwrap();
    e.execute(0xF41E).unwrap();
    assert_eq!(e.index, 0x1000);
    assert_eq!(e.reg(0xF), 1);
}

#[test]
fn font_character_points_into_glyphs() {
    let mut e = Emulator::new();
    e.execute(0x640A).unwrap();
    e.execute(0xF429).unwrap();
    assert_eq!(e.index, 0x5A); // font base 0x50 plus the register value
    assert_eq!(e.memory_at(0x5A), 0xF0); // first row of the glyph there
}

#[test]
fn decimal_conversion_writes_three_digits() {
    let mut e = Emulator::new();
    e.execute(0x649F).unwrap(); // 159
    e.execute(0xA300).unwrap();
    e.execute(0xF433).unwrap();
    assert_eq!(e.memory_at(0x300), 1);
    assert_eq!(e.memory_at(0x301), 5);
    assert_eq!(e.memory_at(0x302), 9);
}

#[test]
fn store_and_load_register_blocks() {
    let mut e = Emulator::new();
    e.execute(0x6005).unwrap();
    e.execute(0x6107).unwrap();
    e.execute(0xA400).unwrap();
    e.execute(0xF155).unwrap();
    assert_eq!(e.memory_at(0x400), 5);
    assert_eq!(e.memory_at(0x401), 7);

    e.execute(0x6000).unwrap();
    e.execute(0x6100).unwrap();
    e.execute(0xF165).unwrap();
    assert_eq!(e.reg(0), 5);
    assert_eq!(e.reg(1), 7);
}

#[test]
fn fetch_past_end_of_memory_fails() {
    let mut e = Emulator::new();
    e.execute(0x1FFF).unwrap();
    assert_eq!(e.execute_next_instruction(), Err(Chip8Error::AddressOutOfRange));
    assert_eq!(e.pc, 0xFFF); // nothing changed
}

#[test]
fn decimal_conversion_past_end_of_memory_fails() {
    let mut e = Emulator::new();
    e.execute(0xAFFE).unwrap();
    assert_eq!(e.execute(0xF433), Err(Chip8Error::AddressOutOfRange));
    assert_eq!(e.memory_at(0xFFE), 0);
}

#[test]
fn register_block_past_end_of_memory_fails() {
    let mut e = Emulator::new();
    e.execute(0xAFFF).unwrap();
    assert_eq!(e.execute(0xF155), Err(Chip8Error::AddressOutOfRange));
    assert_eq!(e.execute(0xF165), Err(Chip8Error::AddressOutOfRange));
    assert_eq!(e.execute(0xF055), Ok(())); // a single register still fits
}

#[test]
fn oversized_program_is_rejected() {
    let mut e = Emulator::new();
    let too_big = vec![0u8; 4096 - 0x200 + 1];
    assert_eq!(e.load_program(&too_big), Err(Chip8Error::ProgramTooLarge));
    assert_eq!(e.memory_at(0x200), 0); // nothing was copied

    let just_fits = vec![0x77u8; 4096 - 0x200];
    assert_eq!(e.load_program(&just_fits), Ok(()));
    assert_eq!(e.memory_at(0xFFF), 0x77);
}

#[test]
fn random_byte_is_masked() {
    let mut e = Emulator::new();
    e.execute(0x6455).unwrap();
    e.execute(0xC400).unwrap(); // mask 0x00 forces 0 whatever was drawn
    assert_eq!(e.reg(4), 0);
    e.execute(0xC40F).unwrap();
    assert!(e.reg(4) <= 0x0F);
}

#[test]
fn unrecognized_words_are_noops() {
    let mut e = Emulator::new();
    e.execute(0x0123).unwrap();
    e.execute(0x8458).unwrap();
    e.execute(0xF4FF).unwrap();
    assert_eq!(e.pc, 0);
    assert_eq!(e.index, 0);
    assert_eq!(e.reg(4), 0);
}

#[test]
fn skip_if_key_matches_pressed_key() {
    let mut e = Emulator::new();
    e.execute(0x6104).unwrap();
    e.key_pressed = Some(4);
    e.execute(0xE19E).unwrap();
    assert_eq!(e.pc, 2);
    e.execute(0xE1A1).unwrap();
    assert_eq!(e.pc, 2);

    e.key_pressed = Some(5);
    e.execute(0xE19E).unwrap();
    assert_eq!(e.pc, 2);
    e.execute(0xE1A1).unwrap();
    assert_eq!(e.pc, 4);

    e.key_pressed = None;
    e.execute(0xE19E).unwrap();
    assert_eq!(e.pc, 4);
    e.execute(0xE1A1).unwrap();
    assert_eq!(e.pc, 6);
}

#[test]
fn key_wait_reexecutes_until_key_arrives() {
    let mut e = Emulator::new();
    e.execute_program(&[0xF4, 0x0A]).unwrap();
    for _ in 0..3 {
        e.execute_next_instruction().unwrap();
        assert_eq!(e.pc, 0x200); // the same instruction re-executes
    }
    e.key_pressed = Some(7);
    e.execute_next_instruction().unwrap();
    assert_eq!(e.pc, 0x202);
    assert_eq!(e.reg(4), 7);
}
