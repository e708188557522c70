use chip8::display::Chip8Display;
use chip8::instruction::Instruction;
use chip8::keypad::Chip8Keypad;
use chip8::stack::Chip8Stack;
use chip8::timing::{cycle_allowed, CycleClock};

#[test]
fn stack_holds_64_addresses() {
    let mut s = Chip8Stack::new();
    assert_eq!(s.buffer, vec![0u16; 64]);
    for k in 0..64u16 {
        s.push(k * 2);
    }
    assert_eq!(s.len(), 64);
    assert_eq!(s.top, 64);
    for k in (0..64u16).rev() {
        assert_eq!(s.pop(), k * 2);
    }
    assert_eq!(s.len(), 0);
    assert_eq!(s.buffer[63], 126);
}

#[test]
fn display_get_mut_and_clear() {
    let mut d = Chip8Display::new();
    *d.get_mut(5, 2) = true;
    assert!(d.pixels[2 * 64 + 5]);
    assert!(*d.get_mut(5, 2));
    d.clear();
    assert!(d.pixels.iter().all(|p| !p));
}

#[test]
fn display_draw_reports_collision() {
    let mut d = Chip8Display::new();
    let ram = vec![0b1000_0001u8, 0b0100_0000];
    assert!(!d.draw(&ram, 0, 60, 0, 2));
    assert!(d.pixels[60]);
    assert!(!d.pixels[63]);
    assert!(d.pixels[64 + 61]);
    assert!(d.draw(&ram, 0, 60, 0, 1));
    assert!(!d.pixels[60]);
}

#[test]
fn keypad_finds_lowest_release() {
    let mut k = Chip8Keypad::new();
    assert_eq!(k.find_released(), 16);
    let mut down = [false; 16];
    down[3] = true;
    down[9] = true;
    k.advance(down);
    assert_eq!(k.find_released(), 16);
    k.advance([false; 16]);
    assert_eq!(k.find_released(), 3);
}

#[test]
fn decode_covers_families() {
    assert_eq!(Instruction::decode(0x00E0), Some(Instruction::ClearScreen));
    assert_eq!(Instruction::decode(0x00EE), Some(Instruction::Return));
    assert_eq!(Instruction::decode(0x1ABC), Some(Instruction::Jump { addr: 0xABC }));
    assert_eq!(Instruction::decode(0x8AB6), Some(Instruction::ShiftRight { x: 0xA, y: 0xB }));
    assert_eq!(Instruction::decode(0xD12F), Some(Instruction::Draw { x: 1, y: 2, n: 0xF }));
    assert_eq!(Instruction::decode(0xF30A), Some(Instruction::GetKey { x: 3 }));
    assert_eq!(Instruction::decode(0x8AB8), None);
    assert_eq!(Instruction::decode(0xE19F), None);
    assert_eq!(Instruction::decode(0xF199), None);
    assert_eq!(Instruction::decode(0x9121), None);
}

#[test]
fn cycle_clock_catches_up() {
    let mut c = CycleClock::new();
    c.add_elapsed(1429 * 3 + 10);
    let mut n = 0;
    while c.take_cycle() {
        n += 1;
    }
    assert_eq!(n, 3);
    assert_eq!(c.lag_us, 10);
}

#[test]
fn cycle_bound() {
    assert!(cycle_allowed(5, 0));
    assert!(cycle_allowed(4, 5));
    assert!(!cycle_allowed(5, 5));
}
