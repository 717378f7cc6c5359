use chip8::Chip8;
use chip8::Chip8Error;

fn boot(bytes: &[u8]) -> Chip8 {
    let mut c = Chip8::new();
    c.load(&bytes.to_vec()).unwrap();
    c
}

#[test]
fn test_new_machine_state() {
    let c = Chip8::new();
    assert_eq!(c.program_counter(), 0x200);
    assert_eq!(c.index_register(), 0);
    assert_eq!(c.stack_pointer(), 0);
    assert_eq!(c.delay_timer(), 0);
    assert_eq!(c.sound_timer(), 0);
    assert!(!c.draw_flag());
    // The first and last font bytes, and a zeroed program area.
    assert_eq!(c.memory_at(0x00), 0xF0);
    assert_eq!(c.memory_at(0x4F), 0x80);
    assert_eq!(c.memory_at(0x50), 0x00);
    assert_eq!(c.memory_at(0x200), 0x00);
    for i in 0..16 {
        assert_eq!(c.register(i), 0);
        assert_eq!(c.key(i), 0);
    }
    for y in 0..32 {
        for x in 0..64 {
            assert_eq!(c.pixel(x, y), 0);
        }
    }
}

#[test]
fn test_load_copies_rom_at_0x200() {
    let c = boot(&[0x12, 0x34, 0x56]);
    assert_eq!(c.memory_at(0x200), 0x12);
    assert_eq!(c.memory_at(0x201), 0x34);
    assert_eq!(c.memory_at(0x202), 0x56);
    assert_eq!(c.memory_at(0x203), 0x00);
    assert_eq!(c.program_counter(), 0x200);
}

#[test]
fn test_load_max_rom_succeeds() {
    let mut c = Chip8::new();
    let rom = vec![0xAB; 3584];
    assert_eq!(c.load(&rom), Ok(()));
    assert_eq!(c.memory_at(0x200), 0xAB);
    assert_eq!(c.memory_at(4095), 0xAB);
}

#[test]
fn test_load_oversized_rom_fails_and_preserves_memory() {
    let mut c = Chip8::new();
    c.load(&vec![0x77, 0x88]).unwrap();
    let big = vec![0xCD; 3585];
    assert_eq!(c.load(&big), Err(Chip8Error::RomTooLarge));
    // Everything above 0x200 still holds the first image.
    assert_eq!(c.memory_at(0x200), 0x77);
    assert_eq!(c.memory_at(0x201), 0x88);
    for a in 0x202..4096 {
        assert_eq!(c.memory_at(a), 0x00);
    }
}

#[test]
fn test_unknown_opcodes_fail_and_leave_state() {
    for rom in [
        vec![0x00u8, 0x00],
        vec![0x00, 0xE1],
        vec![0x50, 0x11],
        vec![0x80, 0x08],
        vec![0x90, 0x05],
        vec![0xE0, 0x55],
        vec![0xF0, 0xFF],
    ] {
        let mut c = boot(&rom);
        assert_eq!(c.emulate_cycle(), Err(Chip8Error::UnknownOpcode));
        assert_eq!(c.program_counter(), 0x200);
        assert_eq!(c.delay_timer(), 0);
    }
}

#[test]
fn test_stack_overflow_on_seventeenth_call() {
    // A subroutine that calls itself: each cycle pushes one return address.
    let mut c = boot(&[0x22, 0x00]);
    for _ in 0..16 {
        assert_eq!(c.emulate_cycle(), Ok(()));
    }
    assert_eq!(c.stack_pointer(), 16);
    assert_eq!(c.emulate_cycle(), Err(Chip8Error::StackOverflow));
    assert_eq!(c.stack_pointer(), 16);
    assert_eq!(c.program_counter(), 0x200);
}

#[test]
fn test_stack_underflow_on_bare_return() {
    let mut c = boot(&[0x00, 0xEE]);
    assert_eq!(c.emulate_cycle(), Err(Chip8Error::StackUnderflow));
    assert_eq!(c.program_counter(), 0x200);
}

#[test]
fn test_key_out_of_range() {
    // V0 = 16, then skip-if-key-pressed on V0.
    let mut c = boot(&[0x60, 0x10, 0xE0, 0x9E]);
    assert_eq!(c.emulate_cycle(), Ok(()));
    assert_eq!(c.emulate_cycle(), Err(Chip8Error::KeyOutOfRange));
    assert_eq!(c.program_counter(), 0x202);
}

#[test]
fn test_memory_pointer_out_of_range() {
    // BCD with the index at the last byte of memory.
    let mut c = boot(&[0xAF, 0xFF, 0xF0, 0x33]);
    c.emulate_cycle().unwrap();
    assert_eq!(c.emulate_cycle(), Err(Chip8Error::AddressOutOfRange));
    // Sprite rows that would be read past the end of memory.
    let mut c = boot(&[0xAF, 0xFF, 0xD0, 0x02]);
    c.emulate_cycle().unwrap();
    assert_eq!(c.emulate_cycle(), Err(Chip8Error::AddressOutOfRange));
    // A register dump that would run past the end of memory.
    let mut c = boot(&[0xAF, 0xFF, 0xF1, 0x55]);
    c.emulate_cycle().unwrap();
    assert_eq!(c.emulate_cycle(), Err(Chip8Error::AddressOutOfRange));
}

#[test]
fn test_fetch_out_of_range() {
    // Jump to 0xFFF: the next fetch would need two bytes at 0xFFF and 0x1000.
    let mut c = boot(&[0x1F, 0xFF]);
    assert_eq!(c.emulate_cycle(), Ok(()));
    assert_eq!(c.program_counter(), 0xFFF);
    assert_eq!(c.emulate_cycle(), Err(Chip8Error::AddressOutOfRange));
}

#[test]
fn test_set_key_and_clear_draw_flag() {
    let mut c = Chip8::new();
    c.set_key(5, true);
    assert_eq!(c.key(5), 1);
    c.set_key(5, false);
    assert_eq!(c.key(5), 0);
    assert!(!c.draw_flag());
    c.clear_draw_flag();
    assert!(!c.draw_flag());
}
