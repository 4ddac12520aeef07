//! Tests for the framebuffer draw algorithm, the construction-time
//! state, and the countdown timers.

use chip8::emulator::Emulator;

#[test]
fn fresh_machine_holds_font_and_nothing_else() {
    let e = Emulator::new();
    assert_eq!(e.memory_at(0x50), 0xF0); // first row of glyph 0
    assert_eq!(e.memory_at(0x9F), 0x80); // last row of glyph F
    assert_eq!(e.memory_at(0x00), 0);
    assert_eq!(e.memory_at(0x200), 0);
    assert_eq!(e.pc, 0);
    assert_eq!(e.index, 0);
    assert_eq!(e.delay_timer, 0);
    assert_eq!(e.sound_timer, 0);
    assert_eq!(e.stack_len(), 0);
    assert_eq!(e.key_pressed, None);
    for i in 0..16 {
        assert_eq!(e.reg(i), 0);
    }
    for row in 0..32 {
        for col in 0..64 {
            assert_eq!(e.pixel(row, col), 0);
        }
    }
}

#[test]
fn draw_plots_sprite_row() {
    let mut e = Emulator::new();
    // index at the 0xFF byte stored inside the program image
    e.execute_program(&[0xA2, 0x06, 0xD0, 0x01, 0x00, 0x00, 0xFF]).unwrap();
    e.execute_next_instruction().unwrap();
    assert_eq!(e.index, 0x206);
    e.execute_next_instruction().unwrap();
    for col in 0..8 {
        assert_eq!(e.pixel(0, col), 1);
    }
    assert_eq!(e.pixel(0, 8), 0);
    assert_eq!(e.pixel(1, 0), 0);
    assert_eq!(e.reg(0xF), 0);
}

#[test]
fn drawing_twice_clears_and_reports_collision() {
    let mut e = Emulator::new();
    e.execute_program(&[0xA2, 0x06, 0xD0, 0x01, 0x00, 0x00, 0xFF]).unwrap();
    e.execute_next_instruction().unwrap();
    e.execute_next_instruction().unwrap();
    assert_eq!(e.reg(0xF), 0);
    e.execute(0xD001).unwrap(); // same sprite, same location
    for col in 0..8 {
        assert_eq!(e.pixel(0, col), 0); // the second XOR cancelled the first
    }
    assert_eq!(e.reg(0xF), 1); // and reported the collision
}

#[test]
fn draw_clips_at_right_edge() {
    let mut e = Emulator::new();
    e.execute_program(&[0xA2, 0x06, 0x60, 0x3C, 0x00, 0x00, 0xFF]).unwrap();
    e.execute_next_instruction().unwrap(); // index at the glyph
    e.execute_next_instruction().unwrap(); // register 0 = 60
    e.execute(0xD011).unwrap(); // origin (60, 0), 8 bits wide
    assert_eq!(e.pixel(0, 59), 0);
    for col in 60..64 {
        assert_eq!(e.pixel(0, col), 1); // only columns 60..=63 plotted
    }
    for col in 0..8 {
        assert_eq!(e.pixel(1, col), 0); // nothing wrapped to the next row
    }
    assert_eq!(e.reg(0xF), 0);
}

#[test]
fn draw_clips_at_bottom_edge() {
    let mut e = Emulator::new();
    let program = [0xA2, 0x06, 0x61, 0x1E, 0x00, 0x00, 0xFF, 0xFF, 0xFF, 0xFF, 0xFF];
    e.execute_program(&program).unwrap();
    e.execute_next_instruction().unwrap(); // index at the 5 sprite rows
    e.execute_next_instruction().unwrap(); // register 1 = 30
    e.execute(0xD015).unwrap(); // origin (0, 30), 5 rows tall
    assert_eq!(e.pixel(30, 0), 1);
    assert_eq!(e.pixel(31, 0), 1);
    assert_eq!(e.pixel(0, 0), 0); // rows 32.. were dropped, not wrapped
    assert_eq!(e.pixel(2, 0), 0);
    assert_eq!(e.reg(0xF), 0);
}

#[test]
fn clear_screen_resets_every_cell() {
    let mut e = Emulator::new();
    e.execute_program(&[0xA2, 0x06, 0xD0, 0x01, 0x00, 0x00, 0xFF]).unwrap();
    e.execute_next_instruction().unwrap();
    e.execute_next_instruction().unwrap();
    assert_eq!(e.pixel(0, 0), 1);
    e.execute(0x00E0).unwrap();
    for row in 0..32 {
        for col in 0..64 {
            assert_eq!(e.pixel(row, col), 0);
        }
    }
}

#[test]
fn delay_timer_counts_five_ticks_to_zero_and_stays() {
    let mut e = Emulator::new();
    e.execute(0x6505).unwrap();
    e.execute(0xF515).unwrap(); // delay timer = 5
    let mut seen = vec![e.delay_timer];
    for _ in 0..5 {
        e.tick_delay_timer();
        seen.push(e.delay_timer);
    }
    assert_eq!(seen, vec![5, 4, 3, 2, 1, 0]);
    e.tick_delay_timer();
    assert_eq!(e.delay_timer, 0); // stays at zero until set again
    e.execute(0x6502).unwrap();
    e.execute(0xF515).unwrap();
    assert_eq!(e.delay_timer, 2);
}

#[test]
fn read_delay_timer_into_register() {
    let mut e = Emulator::new();
    e.execute(0x6503).unwrap();
    e.execute(0xF515).unwrap();
    e.tick_delay_timer();
    e.execute(0xF607).unwrap();
    assert_eq!(e.reg(6), 2);
}

#[test]
fn sound_timer_is_independent() {
    let mut e = Emulator::new();
    e.execute(0x6504).unwrap();
    e.execute(0xF518).unwrap(); // sound timer = 4
    assert_eq!(e.sound_timer, 4);
    assert_eq!(e.delay_timer, 0);
    e.tick_sound_timer();
    assert_eq!(e.sound_timer, 3);
    e.tick_delay_timer();
    assert_eq!(e.delay_timer, 0); // never goes negative
}
