use chip8::Chip8;

fn boot(bytes: &[u8]) -> Chip8 {
    let mut c = Chip8::new();
    c.load(&bytes.to_vec()).unwrap();
    c
}

fn run(c: &mut Chip8, cycles: usize) {
    for _ in 0..cycles {
        c.emulate_cycle().unwrap();
    }
}

#[test]
fn test_add_register_with_carry() {
    // V0 = 200, V1 = 100, V0 += V1: 300 wraps to 44 with the carry flag set.
    let mut c = boot(&[0x60, 200, 0x61, 100, 0x80, 0x14]);
    run(&mut c, 3);
    assert_eq!(c.register(0), 44);
    assert_eq!(c.register(0xF), 1);
    assert_eq!(c.program_counter(), 0x206);
}

#[test]
fn test_add_register_without_carry() {
    let mut c = boot(&[0x60, 10, 0x61, 20, 0x80, 0x14]);
    run(&mut c, 3);
    assert_eq!(c.register(0), 30);
    assert_eq!(c.register(0xF), 0);
}

#[test]
fn test_subtract_with_borrow() {
    // V0 = 5, V1 = 10: 5 - 10 wraps to 251 and the flag reports the borrow.
    let mut c = boot(&[0x60, 5, 0x61, 10, 0x80, 0x15]);
    run(&mut c, 3);
    assert_eq!(c.register(0), 251);
    assert_eq!(c.register(0xF), 0);
}

#[test]
fn test_subtract_without_borrow() {
    let mut c = boot(&[0x60, 10, 0x61, 5, 0x80, 0x15]);
    run(&mut c, 3);
    assert_eq!(c.register(0), 5);
    assert_eq!(c.register(0xF), 1);
}

#[test]
fn test_reverse_subtract() {
    // V0 = 10, V1 = 3: V0 becomes V1 - V0 = 249 with a borrow.
    let mut c = boot(&[0x60, 10, 0x61, 3, 0x80, 0x17]);
    run(&mut c, 3);
    assert_eq!(c.register(0), 249);
    assert_eq!(c.register(0xF), 0);
    // V0 = 3, V1 = 10: V0 becomes 7, no borrow.
    let mut c = boot(&[0x60, 3, 0x61, 10, 0x80, 0x17]);
    run(&mut c, 3);
    assert_eq!(c.register(0), 7);
    assert_eq!(c.register(0xF), 1);
}

#[test]
fn test_bitwise_ops() {
    let mut c = boot(&[0x60, 0x0F, 0x61, 0x35, 0x80, 0x11, 0x80, 0x12, 0x80, 0x13, 0x80, 0x10]);
    run(&mut c, 3);
    assert_eq!(c.register(0), 0x3F); // 0x0F | 0x35
    run(&mut c, 1);
    assert_eq!(c.register(0), 0x35); // 0x3F & 0x35
    run(&mut c, 1);
    assert_eq!(c.register(0), 0x00); // 0x35 ^ 0x35
    run(&mut c, 1);
    assert_eq!(c.register(0), 0x35); // V0 = V1
}

#[test]
fn test_shift_right_keeps_low_bit() {
    let mut c = boot(&[0x60, 0x05, 0x80, 0x06]);
    run(&mut c, 2);
    assert_eq!(c.register(0), 2);
    assert_eq!(c.register(0xF), 1);
}

#[test]
fn test_shift_left_keeps_high_bit() {
    let mut c = boot(&[0x60, 0x81, 0x80, 0x0E]);
    run(&mut c, 2);
    assert_eq!(c.register(0), 0x02);
    assert_eq!(c.register(0xF), 1);
    let mut c = boot(&[0x60, 0x40, 0x80, 0x0E]);
    run(&mut c, 2);
    assert_eq!(c.register(0), 0x80);
    assert_eq!(c.register(0xF), 0);
}

#[test]
fn test_add_literal_wraps_without_flag() {
    let mut c = boot(&[0x60, 0xFF, 0x70, 0x02]);
    run(&mut c, 2);
    assert_eq!(c.register(0), 1);
    assert_eq!(c.register(0xF), 0);
}

#[test]
fn test_skip_if_equal_literal() {
    // V0 starts 0, so 3000 skips: pc goes from 0x200 to 0x204.
    let mut c = boot(&[0x30, 0x00]);
    run(&mut c, 1);
    assert_eq!(c.program_counter(), 0x204);
    // 3001 does not skip.
    let mut c = boot(&[0x30, 0x01]);
    run(&mut c, 1);
    assert_eq!(c.program_counter(), 0x202);
}

#[test]
fn test_skip_if_unequal_literal() {
    let mut c = boot(&[0x40, 0x01]);
    run(&mut c, 1);
    assert_eq!(c.program_counter(), 0x204);
    let mut c = boot(&[0x40, 0x00]);
    run(&mut c, 1);
    assert_eq!(c.program_counter(), 0x202);
}

#[test]
fn test_skip_if_registers_equal() {
    // V0 == V1 == 0: skip.
    let mut c = boot(&[0x50, 0x10]);
    run(&mut c, 1);
    assert_eq!(c.program_counter(), 0x204);
    // V1 = 1: no skip; pc moves 0x202 -> 0x204.
    let mut c = boot(&[0x61, 0x01, 0x50, 0x10]);
    run(&mut c, 2);
    assert_eq!(c.program_counter(), 0x204);
}

#[test]
fn test_skip_if_registers_unequal() {
    let mut c = boot(&[0x61, 0x01, 0x90, 0x10]);
    run(&mut c, 2);
    assert_eq!(c.program_counter(), 0x206);
    let mut c = boot(&[0x90, 0x10]);
    run(&mut c, 1);
    assert_eq!(c.program_counter(), 0x202);
}

#[test]
fn test_jump() {
    let mut c = boot(&[0x12, 0x34]);
    run(&mut c, 1);
    assert_eq!(c.program_counter(), 0x234);
}

#[test]
fn test_jump_with_offset() {
    let mut c = boot(&[0x60, 0x10, 0xB3, 0x00]);
    run(&mut c, 2);
    assert_eq!(c.program_counter(), 0x310);
}

#[test]
fn test_call_and_return() {
    // 0x200: call 0x204; 0x204: return.
    let mut c = boot(&[0x22, 0x04, 0x00, 0x00, 0x00, 0xEE]);
    run(&mut c, 1);
    assert_eq!(c.program_counter(), 0x204);
    assert_eq!(c.stack_pointer(), 1);
    run(&mut c, 1);
    assert_eq!(c.program_counter(), 0x202);
    assert_eq!(c.stack_pointer(), 0);
}

#[test]
fn test_set_index() {
    let mut c = boot(&[0xA1, 0x23]);
    run(&mut c, 1);
    assert_eq!(c.index_register(), 0x123);
    assert_eq!(c.program_counter(), 0x202);
}

#[test]
fn test_index_add_without_overflow_flag() {
    // Index = 0x010, VA = 0x10, index += VA: 0x20, flag 0.
    let mut c = boot(&[0xA0, 0x10, 0x6A, 0x10, 0xFA, 0x1E]);
    run(&mut c, 3);
    assert_eq!(c.index_register(), 0x20);
    assert_eq!(c.register(0xF), 0);
}

#[test]
fn test_index_add_with_overflow_flag() {
    // Index = 0xFFF, VA = 0x10: the sum passes 0xFFF and the flag reports it.
    let mut c = boot(&[0xAF, 0xFF, 0x6A, 0x10, 0xFA, 0x1E]);
    run(&mut c, 3);
    assert_eq!(c.index_register(), 0x100F);
    assert_eq!(c.register(0xF), 1);
}

#[test]
fn test_random_is_masked() {
    let mut c = boot(&[0xC0, 0x0F, 0xC1, 0x00]);
    run(&mut c, 2);
    assert!(c.register(0) <= 0x0F);
    assert_eq!(c.register(1), 0);
}

#[test]
fn test_draw_sprite_and_clear_screen() {
    // Point the index at the font glyph for 0 (top row 0xF0) and draw one
    // row at (0, 0): pixels 0..4 of row 0 turn on.
    let mut c = boot(&[0xA0, 0x00, 0xD0, 0x01, 0x00, 0xE0]);
    run(&mut c, 2);
    assert!(c.draw_flag());
    assert_eq!(c.pixel(0, 0), 1);
    assert_eq!(c.pixel(3, 0), 1);
    assert_eq!(c.pixel(4, 0), 0);
    assert_eq!(c.register(0xF), 0);
    assert_eq!(c.index_register(), 0);
    c.clear_draw_flag();
    run(&mut c, 1);
    assert!(c.draw_flag());
    for y in 0..32 {
        for x in 0..64 {
            assert_eq!(c.pixel(x, y), 0);
        }
    }
}

#[test]
fn test_draw_twice_reports_collision() {
    let mut c = boot(&[0xA0, 0x00, 0xD0, 0x01, 0xD0, 0x01]);
    run(&mut c, 2);
    assert_eq!(c.register(0xF), 0);
    run(&mut c, 1);
    // The second draw erased every pixel it had set.
    assert_eq!(c.register(0xF), 1);
    assert_eq!(c.pixel(0, 0), 0);
    assert_eq!(c.pixel(3, 0), 0);
}

#[test]
fn test_draw_wraps_at_screen_edge() {
    // Draw the 0xF0 row at (62, 31): columns 62, 63 wrap to 0, 1.
    let mut c = boot(&[0x60, 62, 0x61, 31, 0xA0, 0x00, 0xD0, 0x11]);
    run(&mut c, 4);
    assert_eq!(c.pixel(62, 31), 1);
    assert_eq!(c.pixel(63, 31), 1);
    assert_eq!(c.pixel(0, 31), 1);
    assert_eq!(c.pixel(1, 31), 1);
    assert_eq!(c.pixel(2, 31), 0);
}

#[test]
fn test_skip_on_key_state() {
    // V0 = 4; skip-if-pressed fires only when key 4 is down.
    let mut c = boot(&[0x60, 0x04, 0xE0, 0x9E]);
    c.set_key(4, true);
    run(&mut c, 2);
    assert_eq!(c.program_counter(), 0x206);
    let mut c = boot(&[0x60, 0x04, 0xE0, 0x9E]);
    run(&mut c, 2);
    assert_eq!(c.program_counter(), 0x204);
    // Skip-if-not-pressed is the mirror image.
    let mut c = boot(&[0x60, 0x04, 0xE0, 0xA1]);
    run(&mut c, 2);
    assert_eq!(c.program_counter(), 0x206);
    let mut c = boot(&[0x60, 0x04, 0xE0, 0xA1]);
    c.set_key(4, true);
    run(&mut c, 2);
    assert_eq!(c.program_counter(), 0x204);
}

#[test]
fn test_await_key_stalls_then_takes_lowest() {
    let mut c = boot(&[0xF5, 0x0A]);
    for _ in 0..3 {
        c.emulate_cycle().unwrap();
        assert_eq!(c.program_counter(), 0x200);
    }
    c.set_key(7, true);
    c.set_key(3, true);
    c.emulate_cycle().unwrap();
    assert_eq!(c.program_counter(), 0x202);
    assert_eq!(c.register(5), 3);
}

#[test]
fn test_await_key_defers_timer_tick() {
    // Set the delay timer to 2, then stall on await-key: the timer must not
    // move while stalled, and ticks again once a key arrives.
    let mut c = boot(&[0x60, 0x02, 0xF0, 0x15, 0xF1, 0x0A]);
    run(&mut c, 2);
    assert_eq!(c.delay_timer(), 1);
    run(&mut c, 3);
    assert_eq!(c.delay_timer(), 1);
    assert_eq!(c.program_counter(), 0x204);
    c.set_key(0xA, true);
    run(&mut c, 1);
    assert_eq!(c.register(1), 0xA);
    assert_eq!(c.delay_timer(), 0);
}

#[test]
fn test_timers_set_read_and_tick() {
    // V3 = 5; delay = V3 (then one tick leaves 4); V4 = delay (4, then tick
    // leaves 3); sound = V3 (5, then tick leaves 4).
    let mut c = boot(&[0x63, 0x05, 0xF3, 0x15, 0xF4, 0x07, 0xF3, 0x18]);
    run(&mut c, 2);
    assert_eq!(c.delay_timer(), 4);
    run(&mut c, 1);
    assert_eq!(c.register(4), 4);
    assert_eq!(c.delay_timer(), 3);
    run(&mut c, 1);
    assert_eq!(c.sound_timer(), 4);
    assert_eq!(c.delay_timer(), 2);
}

#[test]
fn test_font_address() {
    let mut c = boot(&[0x6A, 0x07, 0xFA, 0x29]);
    run(&mut c, 2);
    assert_eq!(c.index_register(), 35);
}

#[test]
fn test_bcd_store() {
    let mut c = boot(&[0x60, 254, 0xA3, 0x00, 0xF0, 0x33]);
    run(&mut c, 3);
    assert_eq!(c.memory_at(0x300), 2);
    assert_eq!(c.memory_at(0x301), 5);
    assert_eq!(c.memory_at(0x302), 4);
    assert_eq!(c.index_register(), 0x300);
}

#[test]
fn test_dump_and_load_round_trip() {
    // Dump V0..=V2 at 0x300, wipe V0, point the index back, load them back.
    let mut c = boot(&[
        0x60, 11, 0x61, 22, 0x62, 33, 0xA3, 0x00, 0xF2, 0x55, 0x60, 0x00, 0xA3, 0x00, 0xF2, 0x65,
    ]);
    run(&mut c, 5);
    assert_eq!(c.index_register(), 0x303);
    assert_eq!(c.memory_at(0x300), 11);
    assert_eq!(c.memory_at(0x301), 22);
    assert_eq!(c.memory_at(0x302), 33);
    run(&mut c, 1);
    assert_eq!(c.register(0), 0);
    run(&mut c, 2);
    assert_eq!(c.register(0), 11);
    assert_eq!(c.register(1), 22);
    assert_eq!(c.register(2), 33);
    assert_eq!(c.index_register(), 0x303);
}
