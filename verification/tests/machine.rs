use etherea::cli::effective_ips;
use etherea::display::Display;
use etherea::input::map_key;
use etherea::interpreter::{Effect, Interpreter, VmError};
use etherea::timers::Timers;

fn with_display() -> Interpreter {
    let mut it = Interpreter::new();
    it.attach_display(Display::new());
    it
}

#[test]
fn rom_loading_layout() {
    let mut it = with_display();
    it.with_ips(700);
    it.load_rom(&[0x12, 0x00, 0xAB]);
    assert_eq!(it.pc, 0x200);
    assert_eq!(it.i, 0);
    assert!(it.stack.is_empty());
    assert!(it.registers.iter().all(|&r| r == 0));
    assert_eq!(it.memory[0x50], 0xF0); // first font byte
    assert_eq!(it.memory[0x9F], 0x80); // last font byte
    assert_eq!(&it.memory[0x200..0x203], &[0x12, 0x00, 0xAB]);
    assert!(it.memory[..0x50].iter().all(|&b| b == 0));
    assert!(it.memory[0xA0..0x200].iter().all(|&b| b == 0));
    assert!(it.memory[0x203..].iter().all(|&b| b == 0));
    assert_eq!(it.ips, 700);
}

#[test]
fn draw_twice_cancels_and_collides() {
    let mut it = with_display();
    it.i = 0x600;
    it.memory[0x600] = 0xFF; // an 8x1 sprite of all-set bits
    it.registers[0] = 0;
    it.registers[1] = 0;

    it.draw_sprite(0, 1, 1);
    assert_eq!(it.registers[15], 0);
    for x in 0..8 {
        assert!(it.display.grid[x]);
    }
    assert!(!it.display.grid[8]);

    it.draw_sprite(0, 1, 1);
    assert_eq!(it.registers[15], 1); // collision
    for x in 0..8 {
        assert!(!it.display.grid[x]); // XOR cancellation
    }
}

#[test]
fn draw_wraps_origin_and_clips_edges() {
    let mut it = with_display();
    it.i = 0x600;
    it.memory[0x600] = 0xFF;
    it.registers[0] = 60 + 64; // x wraps to 60
    it.registers[1] = 31 + 32; // y wraps to 31
    it.draw_sprite(0, 1, 1);
    // columns 60..64 of the last row are on; nothing wrapped around
    for x in 60..64 {
        assert!(it.display.grid[31 * 64 + x]);
    }
    assert!(!it.display.grid[31 * 64]);
    assert!(!it.display.grid[0]);
    assert_eq!(it.registers[15], 0);
}

#[test]
fn render_fills_presentation_buffer() {
    let mut it = with_display();
    it.i = 0x600;
    it.memory[0x600] = 0b1000_0000;
    it.draw_sprite(0, 1, 1); // single pixel at (0, 0)
    assert_eq!(&it.display.frame[0..4], &[0xFF, 0xFF, 0xFF, 0xFF]);
    assert_eq!(&it.display.frame[4..8], &[0, 0, 0, 0]);
    it.display.clear();
    assert!(it.display.frame.iter().all(|&b| b == 0));
    assert!(!it.display.grid.iter().any(|&p| p));
}

#[test]
fn self_jump_never_advances() {
    let mut it = with_display();
    it.load_rom(&[0x12, 0x00]); // jump(0x200) as the only instruction
    let mut t = Timers::new();
    for _ in 0..10 {
        let r = it.step(&mut t);
        assert_eq!(r, Ok(Effect::Continue));
        assert_eq!(it.pc, 0x200);
    }
}

#[test]
fn stepping_a_small_program() {
    let mut it = with_display();
    // V0 = 5; V0 += 3; V1 = V0
    it.load_rom(&[0x60, 0x05, 0x70, 0x03, 0x81, 0x00]);
    let mut t = Timers::new();
    assert_eq!(it.step(&mut t), Ok(Effect::Continue));
    assert_eq!(it.registers[0], 5);
    assert_eq!(it.pc, 0x202);
    assert_eq!(it.step(&mut t), Ok(Effect::Continue));
    assert_eq!(it.registers[0], 8);
    assert_eq!(it.step(&mut t), Ok(Effect::Continue));
    assert_eq!(it.registers[1], 8);
    assert_eq!(it.pc, 0x206);
}

#[test]
fn unknown_opcode_is_fatal() {
    let mut it = with_display();
    it.load_rom(&[0x00, 0x00]);
    let mut t = Timers::new();
    let r = it.step(&mut t);
    assert_eq!(r, Err(VmError::UnknownOpcode { n0: 0, n1: 0, n2: 0, n3: 0 }));
}

#[test]
fn stack_underflow_is_fatal() {
    let mut it = with_display();
    it.load_rom(&[0x00, 0xEE]); // return with an empty stack
    let mut t = Timers::new();
    assert_eq!(it.step(&mut t), Err(VmError::StackUnderflow));
}

#[test]
fn drawing_without_display_is_fatal() {
    let mut it = Interpreter::new();
    it.load_rom(&[0xD0, 0x11, 0x00, 0xE0]);
    let mut t = Timers::new();
    assert_eq!(it.step(&mut t), Err(VmError::NoDisplay));
    assert_eq!(it.pc, 0x202); // the fetch completed; the draw was refused
    assert_eq!(it.step(&mut t), Err(VmError::NoDisplay)); // clear needs one too
}

#[test]
fn draw_past_memory_end_is_fatal() {
    let mut it = with_display();
    it.load_rom(&[0xD0, 0x12]);
    it.i = 4095;
    let mut t = Timers::new();
    assert_eq!(it.step(&mut t), Err(VmError::AddressOutOfBounds));
}

#[test]
fn clipped_draw_reads_only_surviving_rows() {
    let mut it = with_display();
    it.load_rom(&[0xD0, 0x1F]); // a 15-row sprite
    it.i = 4095; // one byte before memory's end
    it.memory[4095] = 0xFF;
    it.registers[1] = 31; // the bottom edge keeps a single row
    let mut t = Timers::new();
    assert_eq!(it.step(&mut t), Ok(Effect::Render));
    for x in 0..8 {
        assert!(it.display.grid[31 * 64 + x]);
    }
}

#[test]
fn program_counter_at_memory_edge_is_fatal() {
    let mut it = with_display();
    it.load_rom(&[0x12, 0x00]);
    it.pc = 4095;
    let mut t = Timers::new();
    assert_eq!(it.step(&mut t), Err(VmError::AddressOutOfBounds));
}

#[test]
fn key_opcodes_defer_to_the_harness() {
    let mut it = with_display();
    // block-until-key into V1; skip-if-key-pressed on V1;
    // skip-if-key-not-pressed on V2
    it.load_rom(&[0xF1, 0x0A, 0xE1, 0x9E, 0xE2, 0xA1]);
    let mut t = Timers::new();
    assert_eq!(it.step(&mut t), Ok(Effect::WaitKey { vx: 1 }));
    it.store_key(1, 0xA);
    assert_eq!(it.registers[1], 0xA);
    assert_eq!(it.step(&mut t), Ok(Effect::PollKey { vx: 1, press: true }));
    it.skip_key_with(1, None, true); // no key in time: no skip
    assert_eq!(it.pc, 0x204);
    assert_eq!(it.step(&mut t), Ok(Effect::PollKey { vx: 2, press: false }));
    it.skip_key_with(2, Some(0x5), false); // a key that does not match V2
    assert_eq!(it.pc, 0x208);
}

#[test]
fn timer_opcodes_through_dispatch() {
    let mut it = with_display();
    // V0 = 9; delay = V0; sound = V0; V3 = delay
    it.load_rom(&[0x60, 0x09, 0xF0, 0x15, 0xF0, 0x18, 0xF3, 0x07]);
    let mut t = Timers::new();
    for _ in 0..4 {
        assert_eq!(it.step(&mut t), Ok(Effect::Continue));
    }
    assert_eq!(t.delay, 9);
    assert_eq!(t.sound, 9);
    assert_eq!(it.registers[3], 9);
}

#[test]
fn clear_renders_through_dispatch() {
    let mut it = with_display();
    it.i = 0x600;
    it.memory[0x600] = 0xFF;
    it.draw_sprite(0, 1, 1);
    it.load_rom(&[0x00, 0xE0]);
    it.i = 0x600;
    let mut t = Timers::new();
    assert_eq!(it.step(&mut t), Ok(Effect::Render));
    assert!(!it.display.grid.iter().any(|&p| p));
}

#[test]
fn index_overflow_is_fatal() {
    let mut it = with_display();
    it.load_rom(&[0xF0, 0x1E]); // I += V0
    it.i = 0xFFFF;
    it.registers[0] = 1;
    let mut t = Timers::new();
    assert_eq!(it.step(&mut t), Err(VmError::AddressOutOfBounds));
}

#[test]
fn index_add_keeps_a_set_flag() {
    let mut it = with_display();
    it.load_rom(&[0xF0, 0x1E]);
    it.i = 0x10;
    it.registers[0] = 1;
    it.registers[15] = 1; // a set flag is left alone below the threshold
    let mut t = Timers::new();
    assert_eq!(it.step(&mut t), Ok(Effect::Continue));
    assert_eq!(it.i, 0x11);
    assert_eq!(it.registers[15], 1);
}

#[test]
fn font_lookup_uses_low_nibble() {
    let mut it = with_display();
    it.load_rom(&[0xF0, 0x29]);
    it.registers[0] = 0x3A; // only the low nibble 0xA picks the glyph
    let mut t = Timers::new();
    assert_eq!(it.step(&mut t), Ok(Effect::Continue));
    assert_eq!(it.i, 0x50 + 50);
}

#[test]
fn bcd_past_memory_end_is_fatal() {
    let mut it = with_display();
    it.load_rom(&[0xF0, 0x33]);
    it.i = 4094;
    let mut t = Timers::new();
    assert_eq!(it.step(&mut t), Err(VmError::AddressOutOfBounds));
}

#[test]
fn block_copy_past_memory_end_is_fatal() {
    let mut it = with_display();
    it.load_rom(&[0xF3, 0x55, 0xF3, 0x65]);
    it.i = 4094;
    let mut t = Timers::new();
    assert_eq!(it.step(&mut t), Err(VmError::AddressOutOfBounds)); // store
    it.pc = 0x202;
    assert_eq!(it.step(&mut t), Err(VmError::AddressOutOfBounds)); // load
}

#[test]
fn block_copy_through_dispatch() {
    let mut it = with_display();
    // V0 = 1; V1 = 2; I = 0x300; store V0..=V1
    it.load_rom(&[0x60, 0x01, 0x61, 0x02, 0xA3, 0x00, 0xF1, 0x55]);
    let mut t = Timers::new();
    for _ in 0..4 {
        assert_eq!(it.step(&mut t), Ok(Effect::Continue));
    }
    assert_eq!(&it.memory[0x300..0x302], &[1, 2]);
}

#[test]
fn keymap_layout() {
    let expected = [
        ('1', 0x1),
        ('2', 0x2),
        ('3', 0x3),
        ('4', 0xC),
        ('q', 0x4),
        ('w', 0x5),
        ('e', 0x6),
        ('r', 0xD),
        ('a', 0x7),
        ('s', 0x8),
        ('d', 0x9),
        ('f', 0xE),
        ('z', 0xA),
        ('x', 0x0),
        ('c', 0xB),
        ('v', 0xF),
    ];
    for &(c, v) in &expected {
        assert_eq!(map_key(c), Some(v));
    }
    assert_eq!(map_key('g'), None);
    assert_eq!(map_key('5'), None);
}

#[test]
fn default_rate() {
    assert_eq!(effective_ips(Some(100)), 100);
    assert_eq!(effective_ips(None), 700);
}
