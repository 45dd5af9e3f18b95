use chip8::cpu::{decode, Chip8Error, Keypad, Quirks, CPU};

fn no_keys() -> Keypad {
    Keypad { held: 0, pressed: None }
}

fn boot(program: &[u8]) -> CPU {
    let mut cpu = CPU::new();
    cpu.load(program).unwrap();
    cpu
}

fn run(cpu: &mut CPU, steps: usize) {
    for _ in 0..steps {
        cpu.execute(&no_keys()).unwrap();
    }
}

#[test]
fn load_set_and_add() {
    let mut cpu = boot(&[0x60, 0x0A, 0x61, 0x05, 0x80, 0x14]);
    run(&mut cpu, 1);
    assert_eq!(cpu.register(0), 0x0A);
    run(&mut cpu, 1);
    assert_eq!(cpu.register(1), 0x05);
    run(&mut cpu, 1);
    assert_eq!(cpu.register(0), 0x0F);
    assert_eq!(cpu.register(0xF), 0);
    assert_eq!(cpu.pc(), 0x206);
}

#[test]
fn add_sets_carry() {
    let mut cpu = boot(&[0x60, 200, 0x61, 100, 0x80, 0x14]);
    run(&mut cpu, 3);
    assert_eq!(cpu.register(0), 44);
    assert_eq!(cpu.register(0xF), 1);
    let mut cpu = boot(&[0x60, 155, 0x61, 100, 0x80, 0x14]);
    run(&mut cpu, 3);
    assert_eq!(cpu.register(0), 255);
    assert_eq!(cpu.register(0xF), 0);
}

#[test]
fn sub_sets_no_borrow() {
    let mut cpu = boot(&[0x60, 5, 0x61, 10, 0x80, 0x15]);
    run(&mut cpu, 3);
    assert_eq!(cpu.register(0), 251);
    assert_eq!(cpu.register(0xF), 0);
    let mut cpu = boot(&[0x60, 10, 0x61, 10, 0x80, 0x15]);
    run(&mut cpu, 3);
    assert_eq!(cpu.register(0), 0);
    assert_eq!(cpu.register(0xF), 1);
}

#[test]
fn reverse_sub() {
    let mut cpu = boot(&[0x60, 10, 0x61, 3, 0x80, 0x17]);
    run(&mut cpu, 3);
    assert_eq!(cpu.register(0), 249);
    assert_eq!(cpu.register(0xF), 0);
}

#[test]
fn logic_and_wrapping_add() {
    let mut cpu = boot(&[0x60, 0b1100, 0x61, 0b1010, 0x82, 0x00, 0x82, 0x11, 0x83, 0x00, 0x83, 0x12, 0x84, 0x00, 0x84, 0x13, 0x70, 0xFF]);
    run(&mut cpu, 9);
    assert_eq!(cpu.register(2), 0b1110);
    assert_eq!(cpu.register(3), 0b1000);
    assert_eq!(cpu.register(4), 0b0110);
    assert_eq!(cpu.register(0), 0b1011);
    assert_eq!(cpu.register(0xF), 0);
}

#[test]
fn shifts_leave_flag_by_default() {
    let mut cpu = boot(&[0x61, 0x81, 0x6F, 0x07, 0x80, 0x16, 0x82, 0x1E]);
    run(&mut cpu, 4);
    assert_eq!(cpu.register(0), 0x40);
    assert_eq!(cpu.register(2), 0x02);
    assert_eq!(cpu.register(0xF), 0x07);
}

#[test]
fn shifts_set_flag_when_configured() {
    let quirks = Quirks { shift_sets_vf: true, timers_saturate: true, max_stack_depth: 16 };
    let mut cpu = CPU::with_quirks(quirks);
    cpu.load(&[0x61, 0x81, 0x80, 0x16, 0x82, 0x1E]).unwrap();
    run(&mut cpu, 2);
    assert_eq!(cpu.register(0), 0x40);
    assert_eq!(cpu.register(0xF), 1);
    run(&mut cpu, 1);
    assert_eq!(cpu.register(2), 0x02);
    assert_eq!(cpu.register(0xF), 1);
}

#[test]
fn draw_twice_collides() {
    // I = 0x20A, draw at (V0, V1) = (0, 0) twice, then spin; the sprite byte is at 0x20A.
    let mut cpu = boot(&[0xA2, 0x0A, 0x60, 0x00, 0xD0, 0x11, 0xD0, 0x11, 0x12, 0x08, 0xFF]);
    run(&mut cpu, 3);
    for col in 0..8 {
        assert!(cpu.pixel(0, col));
    }
    assert!(!cpu.pixel(0, 8));
    assert_eq!(cpu.register(0xF), 0);
    assert!(cpu.display_flag);
    run(&mut cpu, 1);
    for col in 0..8 {
        assert!(!cpu.pixel(0, col));
    }
    assert_eq!(cpu.register(0xF), 1);
}

#[test]
fn draw_clips_at_edges() {
    // V0 = 124 (anchor column 60), V1 = 63 (anchor row 31), two rows of 0xFF.
    let mut cpu = boot(&[0xA2, 0x08, 0x60, 124, 0x61, 63, 0xD0, 0x12, 0xFF, 0xFF]);
    run(&mut cpu, 4);
    for col in 60..64 {
        assert!(cpu.pixel(31, col));
    }
    for col in 0..4 {
        assert!(!cpu.pixel(31, col));
        assert!(!cpu.pixel(0, col));
    }
    assert!(!cpu.pixel(0, 60));
    assert_eq!(cpu.register(0xF), 0);
}

#[test]
fn draw_past_memory_fails() {
    let mut cpu = boot(&[0xAF, 0xFE, 0xD0, 0x05]);
    run(&mut cpu, 1);
    assert_eq!(cpu.execute(&no_keys()), Err(Chip8Error::MemoryOutOfRange));
    assert_eq!(cpu.pc(), 0x202);
}

#[test]
fn clear_screen() {
    let mut cpu = boot(&[0xA2, 0x06, 0xD0, 0x01, 0x00, 0xE0, 0x80]);
    run(&mut cpu, 2);
    assert!(cpu.pixel(0, 0));
    let mut buffer = [0u32; 2048];
    cpu.update_display_buffer(&mut buffer, 0xFFFFFF, 0);
    assert!(!cpu.display_flag);
    run(&mut cpu, 1);
    assert!(!cpu.pixel(0, 0));
    assert!(cpu.display_flag);
}

#[test]
fn render_maps_cells_to_colours() {
    let mut cpu = boot(&[0xA2, 0x04, 0xD0, 0x01, 0xA0]);
    run(&mut cpu, 2);
    let mut buffer = [7u32; 2048];
    cpu.update_display_buffer(&mut buffer, 0xFFFFFF, 0x10);
    assert_eq!(buffer[0], 0xFFFFFF);
    assert_eq!(buffer[1], 0x10);
    assert_eq!(buffer[2], 0xFFFFFF);
    assert_eq!(buffer[64], 0x10);
    assert_eq!(buffer[2047], 0x10);
    assert!(!cpu.display_flag);
}

#[test]
fn font_address() {
    let mut cpu = boot(&[0x65, 0x05, 0xF5, 0x29]);
    run(&mut cpu, 2);
    assert_eq!(cpu.index(), 0x50 + 25);
    assert_eq!(cpu.memory(0x50 + 25), 0xF0);
    assert_eq!(cpu.memory(0x50 + 26), 0x80);
}

#[test]
fn wait_for_key_polls() {
    let mut cpu = boot(&[0xF3, 0x0A]);
    for _ in 0..3 {
        cpu.execute(&no_keys()).unwrap();
        assert_eq!(cpu.pc(), 0x200);
    }
    cpu.execute(&Keypad { held: 0, pressed: Some(16) }).unwrap();
    assert_eq!(cpu.pc(), 0x200);
    cpu.execute(&Keypad { held: 0, pressed: Some(7) }).unwrap();
    assert_eq!(cpu.register(3), 7);
    assert_eq!(cpu.pc(), 0x202);
}

#[test]
fn key_skips() {
    let mut cpu = boot(&[0x62, 0x04, 0xE2, 0x9E, 0x00, 0x00, 0xE2, 0xA1]);
    run(&mut cpu, 1);
    cpu.execute(&Keypad { held: 1 << 4, pressed: None }).unwrap();
    assert_eq!(cpu.pc(), 0x206);
    cpu.execute(&Keypad { held: 1 << 4, pressed: None }).unwrap();
    assert_eq!(cpu.pc(), 0x208);
    let mut cpu = boot(&[0x62, 0x04, 0xE2, 0xA1]);
    run(&mut cpu, 1);
    cpu.execute(&Keypad { held: 1 << 3, pressed: None }).unwrap();
    assert_eq!(cpu.pc(), 0x206);
}

#[test]
fn return_on_empty_stack() {
    let mut cpu = boot(&[0x00, 0xEE]);
    assert_eq!(cpu.execute(&no_keys()), Err(Chip8Error::StackUnderflow));
    assert_eq!(cpu.pc(), 0x200);
    assert_eq!(cpu.stack_depth(), 0);
}

#[test]
fn call_and_return() {
    let mut cpu = boot(&[0x22, 0x04, 0x60, 0x01, 0x61, 0x02, 0x00, 0xEE]);
    run(&mut cpu, 1);
    assert_eq!(cpu.pc(), 0x204);
    assert_eq!(cpu.stack_depth(), 1);
    run(&mut cpu, 2);
    assert_eq!(cpu.pc(), 0x202);
    assert_eq!(cpu.stack_depth(), 0);
    run(&mut cpu, 1);
    assert_eq!(cpu.register(0), 1);
    assert_eq!(cpu.register(1), 2);
}

#[test]
fn call_overflows_at_depth() {
    let mut cpu = boot(&[0x22, 0x00]);
    run(&mut cpu, 16);
    assert_eq!(cpu.stack_depth(), 16);
    assert_eq!(cpu.execute(&no_keys()), Err(Chip8Error::StackOverflow));
    assert_eq!(cpu.stack_depth(), 16);
    assert_eq!(cpu.pc(), 0x200);
}

#[test]
fn jumps_and_skips() {
    let mut cpu = boot(&[0x60, 0x02, 0x30, 0x02, 0x00, 0x00, 0x40, 0x02, 0xB2, 0x0A, 0x00, 0x00, 0x12, 0x00]);
    run(&mut cpu, 2);
    assert_eq!(cpu.pc(), 0x206);
    run(&mut cpu, 1);
    assert_eq!(cpu.pc(), 0x208);
    run(&mut cpu, 1);
    assert_eq!(cpu.pc(), 0x20C);
    run(&mut cpu, 1);
    assert_eq!(cpu.pc(), 0x200);
}

#[test]
fn register_compare_skips() {
    let mut cpu = boot(&[0x60, 0x01, 0x61, 0x01, 0x50, 0x10, 0x00, 0x00, 0x90, 0x10]);
    run(&mut cpu, 3);
    assert_eq!(cpu.pc(), 0x208);
    run(&mut cpu, 1);
    assert_eq!(cpu.pc(), 0x20A);
}

#[test]
fn unsupported_instructions() {
    let mut cpu = boot(&[0x51, 0x21]);
    assert_eq!(cpu.execute(&no_keys()), Err(Chip8Error::UnsupportedInstruction(0x5121)));
    assert_eq!(cpu.pc(), 0x200);
    let mut cpu = boot(&[0xFF, 0xFF]);
    assert_eq!(cpu.execute(&no_keys()), Err(Chip8Error::UnsupportedInstruction(0xFFFF)));
    let mut cpu = boot(&[0x80, 0x08]);
    assert_eq!(cpu.execute(&no_keys()), Err(Chip8Error::UnsupportedInstruction(0x8008)));
    let mut cpu = boot(&[0x01, 0x23]);
    assert_eq!(cpu.execute(&no_keys()), Err(Chip8Error::UnsupportedInstruction(0x0123)));
}

#[test]
fn fetch_past_memory_fails() {
    let mut cpu = boot(&[0x1F, 0xFF]);
    run(&mut cpu, 1);
    assert_eq!(cpu.pc(), 0xFFF);
    assert_eq!(cpu.execute(&no_keys()), Err(Chip8Error::MemoryOutOfRange));
    assert_eq!(cpu.pc(), 0xFFF);
}

#[test]
fn timers_count_down_to_zero() {
    let mut cpu = boot(&[0x60, 0x02, 0xF0, 0x15, 0x61, 0x01, 0xF1, 0x18, 0xF2, 0x07]);
    run(&mut cpu, 4);
    assert_eq!(cpu.delay_timer(), 2);
    assert_eq!(cpu.sound_timer(), 1);
    cpu.advance_timers();
    assert_eq!(cpu.delay_timer(), 1);
    assert_eq!(cpu.sound_timer(), 0);
    cpu.advance_timers();
    cpu.advance_timers();
    assert_eq!(cpu.delay_timer(), 0);
    assert_eq!(cpu.sound_timer(), 0);
    run(&mut cpu, 1);
    assert_eq!(cpu.register(2), 0);
}

#[test]
fn timers_wrap_when_configured() {
    let quirks = Quirks { shift_sets_vf: false, timers_saturate: false, max_stack_depth: 16 };
    let mut cpu = CPU::with_quirks(quirks);
    cpu.advance_timers();
    assert_eq!(cpu.delay_timer(), 255);
    assert_eq!(cpu.sound_timer(), 255);
}

#[test]
fn bcd_and_register_transfers() {
    let mut cpu = boot(&[0x60, 123, 0xA3, 0x00, 0xF0, 0x33, 0x61, 7, 0xA3, 0x10, 0xF1, 0x55, 0x60, 0, 0x61, 0, 0xF1, 0x65]);
    run(&mut cpu, 3);
    assert_eq!(cpu.memory(0x300), 1);
    assert_eq!(cpu.memory(0x301), 2);
    assert_eq!(cpu.memory(0x302), 3);
    run(&mut cpu, 3);
    assert_eq!(cpu.memory(0x310), 123);
    assert_eq!(cpu.memory(0x311), 7);
    assert_eq!(cpu.memory(0x312), 0);
    run(&mut cpu, 2);
    assert_eq!(cpu.register(0), 0);
    run(&mut cpu, 1);
    assert_eq!(cpu.register(0), 123);
    assert_eq!(cpu.register(1), 7);
}

#[test]
fn transfers_past_memory_fail() {
    let mut cpu = boot(&[0xAF, 0xFE, 0xF2, 0x55, 0xF2, 0x65, 0xF0, 0x33]);
    run(&mut cpu, 1);
    assert_eq!(cpu.execute(&no_keys()), Err(Chip8Error::MemoryOutOfRange));
    assert_eq!(cpu.memory(0xFFE), 0);
    assert_eq!(cpu.pc(), 0x202);
}

#[test]
fn index_add_keeps_sixteen_bits() {
    let mut cpu = boot(&[0xAF, 0xFF, 0x60, 0x02, 0xF0, 0x1E]);
    run(&mut cpu, 3);
    assert_eq!(cpu.index(), 0x1001);
}

#[test]
fn random_is_masked() {
    let mut cpu = boot(&[0xC0, 0x00, 0xC1, 0x0F, 0xC2, 0x0F]);
    run(&mut cpu, 1);
    assert_eq!(cpu.register(0), 0);
    cpu.execute_with(&no_keys(), 0xAB).unwrap();
    assert_eq!(cpu.register(1), 0x0B);
    run(&mut cpu, 1);
    assert!(cpu.register(2) <= 0x0F);
}

#[test]
fn loader_places_program_and_font() {
    let cpu = boot(&[0x12, 0x34]);
    assert_eq!(cpu.memory(0x200), 0x12);
    assert_eq!(cpu.memory(0x201), 0x34);
    assert_eq!(cpu.memory(0x202), 0);
    assert_eq!(cpu.memory(0x50), 0xF0);
    assert_eq!(cpu.memory(0x55), 0x20);
    assert_eq!(cpu.memory(0x9F), 0x80);
    assert_eq!(cpu.memory(0xA0), 0);
    assert_eq!(cpu.memory(0x4F), 0);
    assert_eq!(cpu.pc(), 0x200);
}

#[test]
fn loader_rejects_large_program() {
    let mut cpu = CPU::new();
    let big = vec![1u8; 4096 - 0x200 + 1];
    assert_eq!(cpu.load(&big), Err(Chip8Error::ProgramTooLarge));
    assert_eq!(cpu.memory(0x200), 0);
    assert_eq!(cpu.memory(0x50), 0);
    let fits = vec![1u8; 4096 - 0x200];
    assert_eq!(cpu.load(&fits), Ok(()));
    assert_eq!(cpu.memory(0xFFF), 1);
}

#[test]
fn decode_fields() {
    let op = decode(0xD3A7);
    assert_eq!(op.family, 0xD);
    assert_eq!(op.x, 0x3);
    assert_eq!(op.y, 0xA);
    assert_eq!(op.n, 0x7);
    assert_eq!(op.nn, 0xA7);
    assert_eq!(op.nnn, 0x3A7);
}

#[test]
fn default_quirks() {
    let cpu = CPU::new();
    let q = cpu.quirks();
    assert!(!q.shift_sets_vf);
    assert!(q.timers_saturate);
    assert_eq!(q.max_stack_depth, 16);
}
