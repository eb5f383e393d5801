use chip8_core::emu::Emu;
use chip8_core::error::EmuError;
use chip8_core::machine::{SCREEN_SIZE, SCREEN_WIDTH, START_ADDR};

/// A fresh machine with `program` loaded, after `steps` cycles that all succeed.
fn run(program: &[u8], steps: usize) -> Emu {
    let mut emu = Emu::new();
    emu.load(program).unwrap();
    for _ in 0..steps {
        emu.tick_with_random(0).unwrap();
    }
    emu
}

fn pixel(emu: &Emu, x: usize, y: usize) -> bool {
    emu.get_display()[x + SCREEN_WIDTH * y]
}

fn lit_pixels(emu: &Emu) -> usize {
    emu.get_display().iter().filter(|p| **p).count()
}

#[test]
fn new_machine_is_initial() {
    let emu = Emu::new();
    assert_eq!(emu.pc(), 0x200);
    assert_eq!(emu.index(), 0);
    assert_eq!(emu.delay_timer(), 0);
    assert_eq!(emu.sound_timer(), 0);
    assert_eq!(emu.stack_depth(), 0);
    for x in 0..16 {
        assert_eq!(emu.register(x), 0);
    }
    assert_eq!(emu.get_display().len(), SCREEN_SIZE);
    assert_eq!(lit_pixels(&emu), 0);
    // glyph 0 and glyph F at the bottom of memory
    assert_eq!(emu.memory(0), 0xF0);
    assert_eq!(emu.memory(1), 0x90);
    assert_eq!(emu.memory(75), 0xF0);
    assert_eq!(emu.memory(79), 0x80);
    assert_eq!(emu.memory(80), 0);
    assert_eq!(emu.memory(0x200), 0);
}

#[test]
fn load_copies_to_start_address() {
    let emu = run(&[0xAB, 0xCD, 0xEF], 0);
    assert_eq!(emu.memory(START_ADDR as usize), 0xAB);
    assert_eq!(emu.memory(0x201), 0xCD);
    assert_eq!(emu.memory(0x202), 0xEF);
    assert_eq!(emu.memory(0x203), 0);
    assert_eq!(emu.memory(0), 0xF0);
}

#[test]
fn load_accepts_full_program_area() {
    let mut emu = Emu::new();
    let rom = vec![0x11u8; 4096 - 0x200];
    assert_eq!(emu.load(&rom), Ok(()));
    assert_eq!(emu.memory(4095), 0x11);
}

#[test]
fn load_refuses_oversized_rom() {
    let mut emu = Emu::new();
    let rom = vec![0x11u8; 4096 - 0x200 + 1];
    assert_eq!(emu.load(&rom), Err(EmuError::RomTooLarge));
    assert_eq!(emu.memory(0x200), 0);
    assert_eq!(emu.memory(4095), 0);
}

#[test]
fn reset_restores_initial_state() {
    let mut emu = run(&[0x6A, 0x42, 0xA2, 0x00, 0xD0, 0x05, 0x22, 0x00], 4);
    assert_eq!(emu.stack_depth(), 1);
    emu.keypress(3, true);
    emu.reset();
    assert_eq!(emu.pc(), 0x200);
    assert_eq!(emu.register(0xA), 0);
    assert_eq!(emu.index(), 0);
    assert_eq!(emu.stack_depth(), 0);
    assert_eq!(lit_pixels(&emu), 0);
    assert_eq!(emu.memory(0x200), 0);
    assert_eq!(emu.memory(0), 0xF0);
}

#[test]
fn load_immediate_sets_register() {
    for x in 0..16u8 {
        let emu = run(&[0x60 | x, 0x5A], 1);
        assert_eq!(emu.register(x as usize), 0x5A);
        assert_eq!(emu.pc(), 0x202);
    }
}

#[test]
fn add_immediate_wraps_without_flag() {
    let emu = run(&[0x6F, 0x07, 0x60, 0xFF, 0x70, 0x03], 3);
    assert_eq!(emu.register(0), 2);
    assert_eq!(emu.register(0xF), 7);
}

#[test]
fn add_registers_sets_carry() {
    let emu = run(&[0x60, 200, 0x61, 100, 0x80, 0x14], 3);
    assert_eq!(emu.register(0), 44);
    assert_eq!(emu.register(0xF), 1);
}

#[test]
fn add_registers_without_carry() {
    let emu = run(&[0x60, 10, 0x61, 20, 0x6F, 9, 0x80, 0x14], 4);
    assert_eq!(emu.register(0), 30);
    assert_eq!(emu.register(0xF), 0);
}

#[test]
fn add_registers_exact_overflow() {
    let emu = run(&[0x60, 255, 0x61, 1, 0x80, 0x14], 3);
    assert_eq!(emu.register(0), 0);
    assert_eq!(emu.register(0xF), 1);
}

#[test]
fn sub_registers_with_borrow() {
    let emu = run(&[0x60, 5, 0x61, 10, 0x80, 0x15], 3);
    assert_eq!(emu.register(0), 251);
    assert_eq!(emu.register(0xF), 0);
}

#[test]
fn sub_registers_without_borrow() {
    let emu = run(&[0x60, 10, 0x61, 5, 0x80, 0x15], 3);
    assert_eq!(emu.register(0), 5);
    assert_eq!(emu.register(0xF), 1);
    let equal = run(&[0x60, 9, 0x61, 9, 0x80, 0x15], 3);
    assert_eq!(equal.register(0), 0);
    assert_eq!(equal.register(0xF), 1);
}

#[test]
fn reverse_sub_registers() {
    let emu = run(&[0x60, 10, 0x61, 5, 0x80, 0x17], 3);
    assert_eq!(emu.register(0), 251);
    assert_eq!(emu.register(0xF), 0);
    let no_borrow = run(&[0x60, 5, 0x61, 10, 0x80, 0x17], 3);
    assert_eq!(no_borrow.register(0), 5);
    assert_eq!(no_borrow.register(0xF), 1);
}

#[test]
fn logic_and_copy() {
    let or = run(&[0x60, 0b1100, 0x61, 0b1010, 0x80, 0x11], 3);
    assert_eq!(or.register(0), 0b1110);
    let and = run(&[0x60, 0b1100, 0x61, 0b1010, 0x80, 0x12], 3);
    assert_eq!(and.register(0), 0b1000);
    let xor = run(&[0x60, 0b1100, 0x61, 0b1010, 0x80, 0x13], 3);
    assert_eq!(xor.register(0), 0b0110);
    let copy = run(&[0x61, 77, 0x80, 0x10], 2);
    assert_eq!(copy.register(0), 77);
}

#[test]
fn shifts_report_lost_bit() {
    let right = run(&[0x60, 0b1000_0011, 0x80, 0x06], 2);
    assert_eq!(right.register(0), 0b0100_0001);
    assert_eq!(right.register(0xF), 1);
    let left = run(&[0x60, 0b1000_0011, 0x80, 0x0E], 2);
    assert_eq!(left.register(0), 0b0000_0110);
    assert_eq!(left.register(0xF), 1);
    let left_clear = run(&[0x60, 0b0100_0000, 0x80, 0x0E], 2);
    assert_eq!(left_clear.register(0), 0b1000_0000);
    assert_eq!(left_clear.register(0xF), 0);
}

#[test]
fn skips_on_comparisons() {
    // 3xnn taken, 4xnn not taken, 5xy0 taken, 9xy0 not taken
    assert_eq!(run(&[0x60, 7, 0x30, 7], 2).pc(), 0x206);
    assert_eq!(run(&[0x60, 7, 0x30, 8], 2).pc(), 0x204);
    assert_eq!(run(&[0x60, 7, 0x40, 7], 2).pc(), 0x204);
    assert_eq!(run(&[0x60, 7, 0x40, 8], 2).pc(), 0x206);
    assert_eq!(run(&[0x60, 7, 0x61, 7, 0x50, 0x10], 3).pc(), 0x208);
    assert_eq!(run(&[0x60, 7, 0x61, 7, 0x90, 0x10], 3).pc(), 0x206);
    assert_eq!(run(&[0x60, 7, 0x61, 8, 0x90, 0x10], 3).pc(), 0x208);
}

#[test]
fn jumps() {
    assert_eq!(run(&[0x13, 0x45], 1).pc(), 0x345);
    assert_eq!(run(&[0x60, 0x10, 0xB3, 0x00], 2).pc(), 0x310);
}

#[test]
fn call_and_return() {
    // 0x200: call 0x206; 0x202: V1 = 1; 0x206: return
    let mut emu = run(&[0x22, 0x06, 0x61, 0x01, 0x00, 0x00, 0x00, 0xEE], 1);
    assert_eq!(emu.pc(), 0x206);
    assert_eq!(emu.stack_depth(), 1);
    assert_eq!(emu.tick_with_random(0), Ok(()));
    assert_eq!(emu.pc(), 0x202);
    assert_eq!(emu.stack_depth(), 0);
}

#[test]
fn call_overflow_is_fatal() {
    // 0x200 calls itself forever
    let mut emu = run(&[0x22, 0x00], 16);
    assert_eq!(emu.stack_depth(), 16);
    assert_eq!(emu.tick_with_random(0), Err(EmuError::StackOverflow));
    assert_eq!(emu.pc(), 0x200);
    assert_eq!(emu.stack_depth(), 16);
}

#[test]
fn return_on_empty_stack_is_fatal() {
    let mut emu = run(&[0x00, 0xEE], 0);
    assert_eq!(emu.tick_with_random(0), Err(EmuError::StackUnderflow));
    assert_eq!(emu.pc(), 0x200);
}

#[test]
fn unsupported_opcode_is_fatal() {
    for word in [[0x00u8, 0x00], [0x51, 0x21], [0x80, 0x1F], [0x91, 0x21], [0xE0, 0x00], [0xF0, 0x99]] {
        let mut emu = run(&word, 0);
        let op = (word[0] as u16) << 8 | word[1] as u16;
        assert_eq!(emu.tick_with_random(0), Err(EmuError::UnsupportedOpcode(op)));
        assert_eq!(emu.pc(), 0x200);
    }
}

#[test]
fn fetch_past_memory_is_fatal() {
    let mut emu = run(&[0x1F, 0xFF], 1);
    assert_eq!(emu.pc(), 0xFFF);
    assert_eq!(emu.tick_with_random(0), Err(EmuError::AddressOutOfRange));
    assert_eq!(emu.pc(), 0xFFF);
}

#[test]
fn random_byte_is_masked() {
    let mut emu = run(&[0xC3, 0x0F], 0);
    assert_eq!(emu.tick_with_random(0xAB), Ok(()));
    assert_eq!(emu.register(3), 0x0B);
}

#[test]
fn random_from_generator_respects_mask() {
    let mut emu = run(&[0xC3, 0x00, 0xC4, 0xF0], 0);
    assert_eq!(emu.tick(), Ok(()));
    assert_eq!(emu.register(3), 0);
    assert_eq!(emu.tick(), Ok(()));
    assert_eq!(emu.register(4) & 0x0F, 0);
    assert_eq!(emu.pc(), 0x204);
}

#[test]
fn index_operations() {
    assert_eq!(run(&[0xA1, 0x23], 1).index(), 0x123);
    let add = run(&[0xA1, 0x23, 0x60, 0x10, 0xF0, 0x1E], 3);
    assert_eq!(add.index(), 0x133);
    let past_memory = run(&[0xAF, 0xFF, 0x60, 0xFF, 0xF0, 0x1E, 0xF0, 0x1E], 4);
    assert_eq!(past_memory.index(), 0x11FD);
    let glyph = run(&[0x60, 0x0A, 0xF0, 0x29], 2);
    assert_eq!(glyph.index(), 50);
    assert_eq!(glyph.memory(50), 0xF0);
    assert_eq!(glyph.memory(51), 0x90);
}

#[test]
fn bcd_of_234() {
    let emu = run(&[0x65, 234, 0xA3, 0x00, 0xF5, 0x33], 3);
    assert_eq!(emu.memory(0x300), 2);
    assert_eq!(emu.memory(0x301), 3);
    assert_eq!(emu.memory(0x302), 4);
}

#[test]
fn bcd_of_small_values() {
    let emu = run(&[0x65, 7, 0xA3, 0x00, 0xF5, 0x33], 3);
    assert_eq!(emu.memory(0x300), 0);
    assert_eq!(emu.memory(0x301), 0);
    assert_eq!(emu.memory(0x302), 7);
}

#[test]
fn bcd_past_memory_is_fatal() {
    let mut emu = run(&[0xAF, 0xFE, 0xF0, 0x33], 1);
    assert_eq!(emu.tick_with_random(0), Err(EmuError::AddressOutOfRange));
    assert_eq!(emu.memory(0xFFE), 0);
    assert_eq!(emu.pc(), 0x202);
}

#[test]
fn store_and_load_registers() {
    let program = [
        0x60, 1, 0x61, 2, 0x62, 3, 0x63, 4, // V0..V3 = 1..4
        0xA3, 0x00, 0xF2, 0x55, // store V0..V2 at 0x300
        0x60, 0, 0x61, 0, 0x62, 0, // clear V0..V2
        0xF1, 0x65, // load V0..V1 from 0x300
    ];
    let emu = run(&program, 10);
    assert_eq!(emu.memory(0x300), 1);
    assert_eq!(emu.memory(0x301), 2);
    assert_eq!(emu.memory(0x302), 3);
    assert_eq!(emu.memory(0x303), 0);
    assert_eq!(emu.register(0), 1);
    assert_eq!(emu.register(1), 2);
    assert_eq!(emu.register(2), 0);
    assert_eq!(emu.register(3), 4);
}

#[test]
fn store_registers_past_memory_is_fatal() {
    let mut emu = run(&[0xAF, 0xFF, 0xF1, 0x55], 1);
    assert_eq!(emu.tick_with_random(0), Err(EmuError::AddressOutOfRange));
    assert_eq!(emu.memory(0xFFF), 0);
}

#[test]
fn draw_glyph_then_erase() {
    // I = glyph 0, draw it at (2, 3), then again at the same place
    let program = [0x60, 0x00, 0xF0, 0x29, 0x61, 2, 0x62, 3, 0xD1, 0x25, 0xD1, 0x25];
    let mut emu = run(&program, 5);
    assert_eq!(emu.register(0xF), 0);
    assert_eq!(lit_pixels(&emu), 14);
    assert!(pixel(&emu, 2, 3) && pixel(&emu, 5, 3));
    assert!(pixel(&emu, 2, 4) && !pixel(&emu, 3, 4) && pixel(&emu, 5, 4));
    assert_eq!(emu.tick_with_random(0), Ok(()));
    assert_eq!(emu.register(0xF), 1);
    assert_eq!(lit_pixels(&emu), 0);
}

#[test]
fn draw_partial_overlap_sets_collision() {
    // one row 0xC0 at (0,0), then one row 0x60 at (0,0) from the next byte
    let program = [0xA2, 0x0A, 0xD0, 0x01, 0xA2, 0x0B, 0xD0, 0x01, 0x12, 0x08, 0xC0, 0x60];
    let mut emu = run(&program, 2);
    assert_eq!(emu.register(0xF), 0);
    assert!(pixel(&emu, 0, 0) && pixel(&emu, 1, 0));
    emu.tick_with_random(0).unwrap();
    emu.tick_with_random(0).unwrap();
    assert_eq!(emu.register(0xF), 1);
    assert!(pixel(&emu, 0, 0) && !pixel(&emu, 1, 0) && pixel(&emu, 2, 0));
    assert_eq!(lit_pixels(&emu), 2);
}

#[test]
fn sprite_wraps_horizontally() {
    // V0 = 63, V1 = 0, I -> a row of eight lit pixels
    let program = [0x60, 63, 0x61, 0, 0xA2, 0x0A, 0xD0, 0x11, 0x12, 0x08, 0xFF];
    let emu = run(&program, 4);
    assert!(pixel(&emu, 63, 0));
    for x in 0..7 {
        assert!(pixel(&emu, x, 0));
    }
    assert!(!pixel(&emu, 7, 0));
    assert!(!pixel(&emu, 62, 0));
    assert_eq!(lit_pixels(&emu), 8);
    assert_eq!(emu.register(0xF), 0);
}

#[test]
fn sprite_wraps_vertically_and_origin_wraps() {
    // V0 = 64 + 1 (origin column 1), V1 = 31, two rows of one pixel each
    let program = [0x60, 65, 0x61, 31, 0xA2, 0x0A, 0xD0, 0x12, 0x12, 0x08, 0x80, 0x80];
    let emu = run(&program, 4);
    assert!(pixel(&emu, 1, 31));
    assert!(pixel(&emu, 1, 0));
    assert_eq!(lit_pixels(&emu), 2);
}

#[test]
fn draw_past_memory_is_fatal() {
    let mut emu = run(&[0xAF, 0xFE, 0xD0, 0x03], 1);
    assert_eq!(emu.tick_with_random(0), Err(EmuError::AddressOutOfRange));
    assert_eq!(lit_pixels(&emu), 0);
}

#[test]
fn clear_screen() {
    let program = [0x60, 0x00, 0xF0, 0x29, 0xD0, 0x05, 0x00, 0xE0];
    let emu = run(&program, 3);
    assert_eq!(lit_pixels(&emu), 14);
    let cleared = run(&program, 4);
    assert_eq!(lit_pixels(&cleared), 0);
}

#[test]
fn delay_timer_counts_down_to_zero() {
    let mut emu = run(&[0x60, 2, 0xF0, 0x15, 0xF1, 0x07], 2);
    assert_eq!(emu.delay_timer(), 2);
    assert!(!emu.tick_timers());
    assert_eq!(emu.delay_timer(), 1);
    assert!(!emu.tick_timers());
    assert_eq!(emu.delay_timer(), 0);
    assert!(!emu.tick_timers());
    assert_eq!(emu.delay_timer(), 0);
    assert_eq!(emu.tick_with_random(0), Ok(()));
    assert_eq!(emu.register(1), 0);
}

#[test]
fn sound_timer_beeps_when_it_runs_out() {
    let mut emu = run(&[0x60, 1, 0xF0, 0x18], 2);
    assert_eq!(emu.sound_timer(), 1);
    assert!(emu.tick_timers());
    assert_eq!(emu.sound_timer(), 0);
    assert!(!emu.tick_timers());
    assert_eq!(emu.sound_timer(), 0);
}

#[test]
fn read_delay_timer() {
    let emu = run(&[0x60, 9, 0xF0, 0x15, 0xF4, 0x07], 3);
    assert_eq!(emu.register(4), 9);
}

#[test]
fn wait_for_key_blocks_until_pressed() {
    let mut emu = run(&[0xF2, 0x0A, 0x61, 0x01], 0);
    assert_eq!(emu.tick_with_random(0), Ok(()));
    assert_eq!(emu.pc(), 0x200);
    assert_eq!(emu.tick_with_random(0), Ok(()));
    assert_eq!(emu.pc(), 0x200);
    emu.keypress(9, true);
    emu.keypress(5, true);
    assert_eq!(emu.tick_with_random(0), Ok(()));
    assert_eq!(emu.register(2), 5);
    assert_eq!(emu.pc(), 0x202);
}

#[test]
fn key_skips() {
    let mut pressed = run(&[0x60, 0x7, 0xE0, 0x9E], 1);
    pressed.keypress(7, true);
    pressed.tick_with_random(0).unwrap();
    assert_eq!(pressed.pc(), 0x206);

    let mut released = run(&[0x60, 0x7, 0xE0, 0x9E], 1);
    released.keypress(7, true);
    released.keypress(7, false);
    released.tick_with_random(0).unwrap();
    assert_eq!(released.pc(), 0x204);

    let mut not_pressed = run(&[0x60, 0x7, 0xE0, 0xA1], 1);
    not_pressed.tick_with_random(0).unwrap();
    assert_eq!(not_pressed.pc(), 0x206);

    let mut is_pressed = run(&[0x60, 0x7, 0xE0, 0xA1], 1);
    is_pressed.keypress(7, true);
    is_pressed.tick_with_random(0).unwrap();
    assert_eq!(is_pressed.pc(), 0x204);
}

#[test]
fn key_out_of_range_is_fatal() {
    let mut emu = run(&[0x60, 0x10, 0xE0, 0x9E], 1);
    assert_eq!(emu.tick_with_random(0), Err(EmuError::KeyOutOfRange));
    assert_eq!(emu.pc(), 0x202);
}
