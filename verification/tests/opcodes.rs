use etherea::interpreter::Interpreter;
use etherea::timers::Timers;

#[test]
fn add_with_carry() {
    let mut it = Interpreter::new();
    it.registers[0] = 250;
    it.registers[1] = 10;
    it.add(0, 1);
    assert_eq!(it.registers[0], 4); // 250 + 10 mod 256
    assert_eq!(it.registers[15], 1);
}

#[test]
fn add_without_carry() {
    let mut it = Interpreter::new();
    it.registers[0] = 100;
    it.registers[1] = 10;
    it.add(0, 1);
    assert_eq!(it.registers[0], 110);
    assert_eq!(it.registers[15], 0);
}

#[test]
fn subtract_with_borrow() {
    let mut it = Interpreter::new();
    it.registers[2] = 5;
    it.registers[3] = 10;
    it.sub(2, 2, 3);
    assert_eq!(it.registers[15], 0); // 5 is not > 10
    assert_eq!(it.registers[2], 251); // 5 - 10 mod 256
}

#[test]
fn subtract_strictly_greater() {
    let mut it = Interpreter::new();
    it.registers[2] = 10;
    it.registers[3] = 5;
    it.sub(2, 2, 3);
    assert_eq!(it.registers[15], 1);
    assert_eq!(it.registers[2], 5);
}

#[test]
fn shift_left_flag() {
    let mut it = Interpreter::new();
    it.registers[3] = 0b1000_0000;
    it.shift_left(3);
    assert_eq!(it.registers[15], 1);
    assert_eq!(it.registers[3], 0);
}

#[test]
fn shift_right_flag() {
    let mut it = Interpreter::new();
    it.registers[3] = 0b0000_0101;
    it.shift_right(3);
    assert_eq!(it.registers[15], 1);
    assert_eq!(it.registers[3], 0b0000_0010);
}

#[test]
fn add_to_index_thresholds() {
    let mut it = Interpreter::new();
    it.i = 0x0FFE;
    it.registers[2] = 5;
    it.add_to_index(2);
    assert_eq!(it.i, 0x1003);
    assert_eq!(it.registers[15], 1); // 0x1003 > 0x1000

    let mut it = Interpreter::new();
    it.i = 0x0FFE;
    it.registers[2] = 1;
    it.add_to_index(2);
    assert_eq!(it.i, 0x0FFF);
    assert_eq!(it.registers[15], 0);
}

#[test]
fn font_character_base() {
    let mut it = Interpreter::new();
    it.registers[0] = 0xA;
    it.font_character(0);
    assert_eq!(it.i, 0x50 + 50); // font base + 5 bytes x 10
    it.registers[1] = 0xF3; // only the low nibble picks the glyph
    it.font_character(1);
    assert_eq!(it.i, 0x50 + 15);
}

#[test]
fn store_load_round_trip() {
    let mut it = Interpreter::new();
    it.registers[0] = 7;
    it.registers[1] = 8;
    it.registers[2] = 9;
    it.registers[3] = 10;
    it.registers[4] = 42;
    it.i = 0x400;
    it.store_to_memory(3);
    for k in 0..16 {
        it.registers[k] = 0;
    }
    it.load_from_memory(3);
    assert_eq!(&it.registers[0..4], &[7, 8, 9, 10]);
    assert_eq!(it.registers[4], 0); // higher registers are not loaded
    assert_eq!(&it.memory[0x400..0x404], &[7, 8, 9, 10]);
}

#[test]
fn bcd_conversion() {
    let mut it = Interpreter::new();
    it.registers[0] = 255;
    it.i = 0x300;
    it.conversion(0);
    assert_eq!(&it.memory[0x300..0x303], &[2, 5, 5]);
}

#[test]
fn register_ops() {
    let mut it = Interpreter::new();
    it.set_register(0, 0xA, 0xB);
    assert_eq!(it.registers[0], 0xAB);
    it.registers[1] = 0b1100;
    it.registers[2] = 0b1010;
    it.or(1, 2);
    assert_eq!(it.registers[1], 0b1110);
    it.registers[1] = 0b1100;
    it.and(1, 2);
    assert_eq!(it.registers[1], 0b1000);
    it.registers[1] = 0b1100;
    it.xor(1, 2);
    assert_eq!(it.registers[1], 0b0110);
    it.set(1, 2);
    assert_eq!(it.registers[1], 0b1010);
}

#[test]
fn add_immediate_wraps_without_flag() {
    let mut it = Interpreter::new();
    it.registers[0] = 0xFF;
    it.add_to_register(0, 0, 2);
    assert_eq!(it.registers[0], 1); // 255 + 2 mod 256
    assert_eq!(it.registers[15], 0); // no flag set by add-immediate
}

#[test]
fn skip_on_immediate() {
    let mut it = Interpreter::new();
    it.pc = 0x200;
    it.registers[0] = 9;
    it.skip_vx(0, 0, 9, true);
    assert_eq!(it.pc, 0x202);
    it.skip_vx(0, 0, 8, true);
    assert_eq!(it.pc, 0x202);
    it.skip_vx(0, 0, 8, false);
    assert_eq!(it.pc, 0x204);
}

#[test]
fn skip_on_register_pair() {
    let mut it = Interpreter::new();
    it.pc = 0x200;
    it.registers[0] = 3;
    it.registers[1] = 3;
    it.skip_vxy(0, 1, true);
    assert_eq!(it.pc, 0x202);
    it.skip_vxy(0, 1, false);
    assert_eq!(it.pc, 0x202);
}

#[test]
fn jumps() {
    let mut it = Interpreter::new();
    it.jump(0x2, 0x3, 0x4);
    assert_eq!(it.pc, 0x234);
    it.registers[0] = 0x10;
    it.jump_with_offset(0x2, 0x0, 0x0);
    assert_eq!(it.pc, 0x210);
    it.set_memory_ptr(0xA, 0xB, 0xC);
    assert_eq!(it.i, 0xABC);
}

#[test]
fn call_and_return() {
    let mut it = Interpreter::new();
    it.pc = 0x204;
    it.call_subroutine(0x3, 0x0, 0x0);
    assert_eq!(it.pc, 0x300);
    assert_eq!(it.stack, vec![0x204]);
    it.subroutine_return();
    assert_eq!(it.pc, 0x204);
    assert!(it.stack.is_empty());
}

#[test]
fn masked_random() {
    let mut it = Interpreter::new();
    it.random_with(0, 0x0F, 0xAB);
    assert_eq!(it.registers[0], 0x0B);
    // A zero mask pins the stored value whatever the source returned.
    it.random(1, 0, 0);
    assert_eq!(it.registers[1], 0);
    // The high nibble of the mask clears the low nibble of any draw.
    it.random(2, 0xF, 0);
    assert_eq!(it.registers[2] & 0x0F, 0);
}

#[test]
fn timer_decay_and_transfer() {
    let mut t = Timers::new();
    assert_eq!((t.delay, t.sound), (0, 0));
    t.update();
    assert_eq!((t.delay, t.sound), (0, 0)); // never below zero

    let mut it = Interpreter::new();
    it.registers[0] = 2;
    it.vx_to_timer(0, true, &mut t);
    assert_eq!((t.delay, t.sound), (2, 0));
    it.registers[1] = 7;
    it.vx_to_timer(1, false, &mut t);
    assert_eq!((t.delay, t.sound), (2, 7));
    t.update();
    assert_eq!((t.delay, t.sound), (1, 6));
    it.timer_to_vx(5, &t);
    assert_eq!(it.registers[5], 1);
}

#[test]
fn key_handling() {
    let mut it = Interpreter::new();
    it.store_key(4, 0xC);
    assert_eq!(it.registers[4], 0xC);

    it.pc = 0x200;
    it.registers[0] = 0xC;
    it.skip_key_with(0, Some(0xC), true);
    assert_eq!(it.pc, 0x202);
    it.skip_key_with(0, Some(0xB), true);
    assert_eq!(it.pc, 0x202);
    it.skip_key_with(0, Some(0xB), false);
    assert_eq!(it.pc, 0x204);
    it.skip_key_with(0, None, false);
    assert_eq!(it.pc, 0x204); // no key in time: neither skip occurs
}
