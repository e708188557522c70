use chip8::error::Chip8Error;
use chip8::instruction::Instruction;
use chip8::keypad::Chip8Keypad;
use chip8::machine::{Chip8State, PROGRAM_START, VF};

fn machine(program: &[u16], quirks: bool) -> Chip8State {
    let mut rom: Vec<u8> = Vec::new();
    for w in program {
        rom.push((w >> 8) as u8);
        rom.push((w & 0xFF) as u8);
    }
    Chip8State::new(&rom, quirks)
}

fn run(m: &mut Chip8State, cycles: usize) {
    let keys = Chip8Keypad::new();
    for _ in 0..cycles {
        m.step(0, &keys, true, 0).unwrap();
    }
}

fn pixel(m: &Chip8State, x: usize, y: usize) -> bool {
    m.display.pixels[y * 64 + x]
}

#[test]
fn test_0() {
    let input = 9;
    let mut m = machine(&[0x6000 | input, 0xA300, 0xF033], false);
    run(&mut m, 3);
    let d0 = m.ram[0x300];
    let d1 = m.ram[0x301];
    let d2 = m.ram[0x302];
    println!("{} -> {} {} {}", input, d0, d1, d2);
    assert_eq!((d0, d1, d2), (0, 0, 9));
}

#[test]
fn bcd_of_254() {
    let mut m = machine(&[0x65FE, 0xA300, 0xF533], false);
    run(&mut m, 3);
    assert_eq!((m.ram[0x300], m.ram[0x301], m.ram[0x302]), (2, 5, 4));
}

#[test]
fn bcd_past_memory_is_fatal() {
    let mut m = machine(&[0xAFFE, 0xF033], false);
    run(&mut m, 1);
    let keys = Chip8Keypad::new();
    assert_eq!(m.step(0, &keys, true, 0), Err(Chip8Error::MemoryOutOfBounds(0xFFE)));
    assert_eq!(m.pc, 0x202);
}

#[test]
fn add_immediate_wraps() {
    let mut m = machine(&[0x63FF, 0x6F07, 0x7301], false);
    run(&mut m, 3);
    assert_eq!(m.v[3], 0x00);
    assert_eq!(m.v[VF], 7);
}

#[test]
fn add_registers_sets_carry() {
    let mut m = machine(&[0x61FF, 0x6201, 0x8124, 0x6310, 0x6420, 0x8344], false);
    run(&mut m, 3);
    assert_eq!(m.v[1], 0x00);
    assert_eq!(m.v[VF], 1);
    run(&mut m, 3);
    assert_eq!(m.v[3], 0x30);
    assert_eq!(m.v[VF], 0);
}

#[test]
fn subtract_sets_no_borrow_flag() {
    let mut m = machine(&[0x6101, 0x6202, 0x8125], false);
    run(&mut m, 3);
    assert_eq!(m.v[1], 0xFF);
    assert_eq!(m.v[VF], 0);
    let mut m = machine(&[0x6105, 0x6203, 0x8125], false);
    run(&mut m, 3);
    assert_eq!(m.v[1], 2);
    assert_eq!(m.v[VF], 1);
}

#[test]
fn reverse_subtract_sets_no_borrow_flag() {
    let mut m = machine(&[0x6105, 0x6203, 0x8127], false);
    run(&mut m, 3);
    assert_eq!(m.v[1], 0xFE);
    assert_eq!(m.v[VF], 0);
    let mut m = machine(&[0x6103, 0x6205, 0x8127], false);
    run(&mut m, 3);
    assert_eq!(m.v[1], 2);
    assert_eq!(m.v[VF], 1);
}

#[test]
fn shift_right_depends_on_quirk_mode() {
    let program = [0x6104, 0x6211, 0x8126];
    let mut q = machine(&program, true);
    run(&mut q, 3);
    assert_eq!(q.v[1], 0x08);
    assert_eq!(q.v[VF], 1);
    let mut p = machine(&program, false);
    run(&mut p, 3);
    assert_eq!(p.v[1], 0x02);
    assert_eq!(p.v[VF], 0);
}

#[test]
fn shift_left_depends_on_quirk_mode() {
    let program = [0x6181, 0x6203, 0x812E];
    let mut q = machine(&program, true);
    run(&mut q, 3);
    assert_eq!(q.v[1], 0x06);
    assert_eq!(q.v[VF], 0);
    let mut p = machine(&program, false);
    run(&mut p, 3);
    assert_eq!(p.v[1], 0x02);
    assert_eq!(p.v[VF], 1);
}

#[test]
fn bitwise_clears_flag_only_in_quirk_mode() {
    for (op, expect) in [(0x8121u16, 0x0Fu8), (0x8122, 0x00), (0x8123, 0x0F)] {
        let program = [0x610C, 0x6203, 0x6F09, op];
        let mut q = machine(&program, true);
        run(&mut q, 4);
        assert_eq!(q.v[1], expect);
        assert_eq!(q.v[VF], 0);
        let mut p = machine(&program, false);
        run(&mut p, 4);
        assert_eq!(p.v[1], expect);
        assert_eq!(p.v[VF], 9);
    }
}

#[test]
fn draw_waits_for_render() {
    // Font glyph of 0 at 0x50, drawn at (0, 0).
    let mut m = machine(&[0xA050, 0xD005], false);
    run(&mut m, 1);
    let keys = Chip8Keypad::new();
    for _ in 0..3 {
        m.step(0, &keys, false, 0).unwrap();
        assert_eq!(m.pc, 0x202);
        assert!(!pixel(&m, 0, 0));
    }
    m.step(0, &keys, true, 0).unwrap();
    assert_eq!(m.pc, 0x204);
    assert!(pixel(&m, 0, 0));
    assert!(pixel(&m, 3, 0));
    assert!(!pixel(&m, 4, 0));
    assert!(!pixel(&m, 1, 1));
    assert_eq!(m.v[VF], 0);
}

#[test]
fn draw_collision_sets_flag() {
    let mut m = machine(&[0xA050, 0xD005, 0xD005], false);
    run(&mut m, 2);
    assert_eq!(m.v[VF], 0);
    run(&mut m, 1);
    assert_eq!(m.v[VF], 1);
    for k in 0..2048 {
        assert!(!m.display.pixels[k]);
    }
}

#[test]
fn draw_clips_at_right_and_bottom_edges() {
    // 0xF0 rows of the glyph of 0 at column 62, row 30.
    let mut m = machine(&[0xA050, 0x613E, 0x621E, 0xD125], false);
    run(&mut m, 4);
    assert!(pixel(&m, 62, 30));
    assert!(pixel(&m, 63, 30));
    assert!(!pixel(&m, 0, 30));
    assert!(!pixel(&m, 1, 30));
    assert!(!pixel(&m, 0, 31));
    assert!(pixel(&m, 62, 31));
    for x in 0..64 {
        assert!(!pixel(&m, x, 0));
        assert!(!pixel(&m, x, 1));
    }
}

#[test]
fn draw_origin_wraps() {
    // Vx = 67 and Vy = 33 give the origin (3, 1).
    let mut m = machine(&[0xA050, 0x6143, 0x6221, 0xD121], false);
    run(&mut m, 4);
    assert!(pixel(&m, 3, 1));
    assert!(pixel(&m, 6, 1));
    assert!(!pixel(&m, 7, 1));
    assert!(!pixel(&m, 3, 0));
}

#[test]
fn draw_past_memory_is_fatal() {
    let mut m = machine(&[0xAFFE, 0xD005], false);
    run(&mut m, 1);
    let keys = Chip8Keypad::new();
    assert_eq!(m.step(0, &keys, true, 0), Err(Chip8Error::MemoryOutOfBounds(0xFFE)));
}

#[test]
fn clear_screen_turns_pixels_off() {
    let mut m = machine(&[0xA050, 0xD005, 0x00E0], false);
    run(&mut m, 3);
    for k in 0..2048 {
        assert!(!m.display.pixels[k]);
    }
}

#[test]
fn get_key_waits_for_release_edge() {
    let mut m = machine(&[0xF30A], false);
    let mut keys = Chip8Keypad::new();
    m.step(0, &keys, true, 0).unwrap();
    assert_eq!(m.pc, 0x200);
    let mut held = [false; 16];
    held[7] = true;
    keys.advance(held);
    m.step(0, &keys, true, 0).unwrap();
    assert_eq!(m.pc, 0x200);
    keys.advance(held);
    m.step(0, &keys, true, 0).unwrap();
    assert_eq!(m.pc, 0x200);
    keys.advance([false; 16]);
    m.step(0, &keys, true, 0).unwrap();
    assert_eq!(m.pc, 0x202);
    assert_eq!(m.v[3], 7);
}

#[test]
fn key_skips() {
    let mut keys = Chip8Keypad::new();
    keys.pressed[5] = true;
    let mut m = machine(&[0x6105, 0xE19E, 0x0000, 0xE1A1, 0x6105], false);
    m.step(0, &keys, true, 0).unwrap();
    m.step(0, &keys, true, 0).unwrap();
    assert_eq!(m.pc, 0x206);
    m.step(0, &keys, true, 0).unwrap();
    assert_eq!(m.pc, 0x208);
}

#[test]
fn key_index_outside_keypad_is_fatal() {
    let mut m = machine(&[0x6110, 0xE19E], false);
    run(&mut m, 1);
    let keys = Chip8Keypad::new();
    assert_eq!(m.step(0, &keys, true, 0), Err(Chip8Error::InvalidKey(0x10)));
}

#[test]
fn timers_drop_by_one_per_interval() {
    let mut m = machine(&[0x6102, 0xF115, 0xF118, 0x1206], false);
    run(&mut m, 3);
    assert_eq!((m.delay_timer, m.sound_timer), (2, 2));
    let keys = Chip8Keypad::new();
    m.step(16667, &keys, true, 0).unwrap();
    assert_eq!((m.delay_timer, m.sound_timer), (1, 1));
    m.step(16667, &keys, true, 0).unwrap();
    assert_eq!((m.delay_timer, m.sound_timer), (0, 0));
    m.step(16667, &keys, true, 0).unwrap();
    assert_eq!((m.delay_timer, m.sound_timer), (0, 0));
    assert_eq!(m.elapsed_us, 0);
}

#[test]
fn timer_remainders_accumulate() {
    let mut m = machine(&[0x6105, 0xF115, 0x1204], false);
    run(&mut m, 2);
    let keys = Chip8Keypad::new();
    let deltas = [1666u64, 1667, 1667, 1666, 1667, 1667, 1666, 1667, 1667, 1667];
    assert_eq!(deltas.iter().sum::<u64>(), 16667);
    for (k, d) in deltas.iter().enumerate() {
        m.step(*d, &keys, true, 0).unwrap();
        if k < 9 {
            assert_eq!(m.delay_timer, 5);
        }
    }
    assert_eq!(m.delay_timer, 4);
    assert_eq!(m.elapsed_us, 0);
    m.update_timers(16666);
    assert_eq!(m.delay_timer, 4);
    m.update_timers(1);
    assert_eq!(m.delay_timer, 3);
}

#[test]
fn update_timers_handles_long_gaps() {
    let mut m = machine(&[], false);
    m.delay_timer = 10;
    m.sound_timer = 3;
    m.update_timers(16667 * 4 + 5);
    assert_eq!((m.delay_timer, m.sound_timer), (6, 0));
    assert_eq!(m.elapsed_us, 5);
}

#[test]
fn get_delay_reads_timer() {
    let mut m = machine(&[0x612A, 0xF115, 0xF207], false);
    run(&mut m, 3);
    assert_eq!(m.v[2], 0x2A);
}

#[test]
fn store_and_load_move_index_in_quirk_mode() {
    let program = [0x6011, 0x6122, 0x6233, 0xA300, 0xF255, 0xA300, 0x6000, 0x6100, 0x6200, 0xF265];
    let mut q = machine(&program, true);
    run(&mut q, 5);
    assert_eq!(q.i, 0x303);
    assert_eq!((q.ram[0x300], q.ram[0x301], q.ram[0x302]), (0x11, 0x22, 0x33));
    run(&mut q, 5);
    assert_eq!(q.i, 0x303);
    assert_eq!((q.v[0], q.v[1], q.v[2]), (0x11, 0x22, 0x33));

    let mut p = machine(&program, false);
    run(&mut p, 5);
    assert_eq!(p.i, 0x300);
    assert_eq!((p.ram[0x300], p.ram[0x301], p.ram[0x302]), (0x11, 0x22, 0x33));
    run(&mut p, 5);
    assert_eq!(p.i, 0x300);
    assert_eq!((p.v[0], p.v[1], p.v[2]), (0x11, 0x22, 0x33));
}

#[test]
fn call_and_return() {
    // 0x200: call 0x206; 0x202: V1 = 1; 0x206: V2 = 2; return.
    let mut m = machine(&[0x2206, 0x6101, 0x0000, 0x6202, 0x00EE], false);
    run(&mut m, 1);
    assert_eq!(m.pc, 0x206);
    assert_eq!(m.stack.len(), 1);
    run(&mut m, 2);
    assert_eq!(m.pc, 0x202);
    assert_eq!(m.stack.len(), 0);
    assert_eq!(m.v[2], 2);
}

#[test]
fn return_with_empty_stack_is_fatal() {
    let mut m = machine(&[0x00EE], false);
    let keys = Chip8Keypad::new();
    assert_eq!(m.step(0, &keys, true, 0), Err(Chip8Error::StackUnderflow));
    assert_eq!(m.pc, 0x200);
}

#[test]
fn deep_recursion_overflows_stack() {
    // A subroutine that calls itself.
    let mut m = machine(&[0x2200], false);
    run(&mut m, 64);
    assert_eq!(m.stack.len(), 64);
    let keys = Chip8Keypad::new();
    assert_eq!(m.step(0, &keys, true, 0), Err(Chip8Error::StackOverflow));
    assert_eq!(m.stack.len(), 64);
}

#[test]
fn unknown_instruction_is_fatal() {
    let mut m = machine(&[0x5121], false);
    let keys = Chip8Keypad::new();
    assert_eq!(m.step(0, &keys, true, 0), Err(Chip8Error::UnknownInstruction(0x5121)));
    let mut m = machine(&[0x0123], false);
    assert_eq!(m.step(0, &keys, true, 0), Err(Chip8Error::UnknownInstruction(0x0123)));
}

#[test]
fn fetch_past_memory_is_fatal() {
    let mut m = machine(&[0x1FFF], false);
    run(&mut m, 1);
    let keys = Chip8Keypad::new();
    assert_eq!(m.step(0, &keys, true, 0), Err(Chip8Error::FetchOutOfBounds(0xFFF)));
}

#[test]
fn skips_compare_registers_and_immediates() {
    let mut m = machine(&[0x6107, 0x3107, 0x0000, 0x4107, 0x6208, 0x5120, 0x9120, 0x0000, 0x6301], false);
    run(&mut m, 2);
    assert_eq!(m.pc, 0x206);
    run(&mut m, 1);
    assert_eq!(m.pc, 0x208);
    run(&mut m, 3);
    assert_eq!(m.pc, 0x210);
}

#[test]
fn jump_with_offset() {
    let mut m = machine(&[0x6004, 0xB300], false);
    run(&mut m, 2);
    assert_eq!(m.pc, 0x304);
}

#[test]
fn add_to_index_wraps_at_4096() {
    let mut m = machine(&[0xAFFF, 0x6102, 0xF11E, 0xA100, 0x6F05, 0xF11E], false);
    run(&mut m, 3);
    assert_eq!(m.i, 0x001);
    assert_eq!(m.v[VF], 1);
    run(&mut m, 3);
    assert_eq!(m.i, 0x102);
    assert_eq!(m.v[VF], 5);
}

#[test]
fn font_character_address() {
    let mut m = machine(&[0x610A, 0xF129], false);
    run(&mut m, 2);
    assert_eq!(m.i, 0x50 + 10 * 5);
    assert_eq!(m.ram[m.i as usize], 0xF0);
    assert_eq!(m.ram[m.i as usize + 1], 0x90);
}

#[test]
fn random_is_masked() {
    let mut m = machine(&[0xC10F, 0xC200], false);
    let keys = Chip8Keypad::new();
    m.step(0, &keys, true, 0xAB).unwrap();
    assert_eq!(m.v[1], 0x0B);
    m.v[2] = 9;
    m.update(0, &keys, true).unwrap();
    assert_eq!(m.v[2], 0);
}

#[test]
fn new_machine_layout() {
    let m = machine(&[0x1234, 0xABCD], true);
    assert_eq!(m.pc as usize, PROGRAM_START);
    assert_eq!(m.ram.len(), 4096);
    assert_eq!(&m.ram[0x200..0x204], &[0x12, 0x34, 0xAB, 0xCD]);
    assert_eq!(m.ram[0x50], 0xF0);
    assert_eq!(m.ram[0x9F], 0x80);
    assert_eq!(m.ram[0x4F], 0);
    assert_eq!(m.ram[0xA0], 0);
    assert_eq!(m.ram[0x204], 0);
    assert!(m.cosmac_quirks);
    assert_eq!(m.v, vec![0u8; 16]);
    assert!(m.display.pixels.iter().all(|p| !p));
}

#[test]
fn largest_program_fits() {
    let rom = vec![0xEEu8; 0xE00];
    let m = Chip8State::new(&rom, false);
    assert_eq!(m.ram[0xFFF], 0xEE);
    assert_eq!(m.ram[0x1FF], 0);
}

#[test]
fn execute_decoded_instruction() {
    let mut m = machine(&[], false);
    let keys = Chip8Keypad::new();
    m.execute(Instruction::LoadImm { x: 4, nn: 0x99 }, &keys, false, 0).unwrap();
    assert_eq!(m.v[4], 0x99);
    assert_eq!(m.pc, 0x202);
}
