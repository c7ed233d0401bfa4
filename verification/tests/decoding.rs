use etherea::bits::{digit, recombine};
use etherea::instruction::{hex_digit, Instruction};

#[test]
fn instruction() {
    let val = 0b0010_1110; // 46
    let inst = Instruction::from(val);
    assert_eq!(inst, Instruction { n0: 0, n1: 0, n2: 0b0010, n3: 0b1110 });
}

#[test]
fn to_digits() {
    let n = 456;
    assert_eq!(digit(0, n), 6);
    assert_eq!(digit(1, n), 5);
    assert_eq!(digit(2, n), 4);
}

#[test]
fn nibble_round_trip() {
    for &v in &[0u16, 46, 0x1234, 0xABCD, 0xFFFF, 0x8000, 0x0001] {
        let inst = Instruction::from(v);
        let hi = recombine(inst.n0, inst.n1);
        let lo = recombine(inst.n2, inst.n3);
        assert_eq!((hi as u16) * 256 + (lo as u16), v);
    }
}

#[test]
fn bit_probe() {
    assert!(etherea::bits::set(7, 0b1000_0000));
    assert!(!etherea::bits::set(6, 0b1000_0000));
    assert!(etherea::bits::set(0, 0b0000_0001));
    assert!(!etherea::bits::set(0, 0b1111_1110));
}

#[test]
fn recombine_nibbles() {
    assert_eq!(recombine(2, 14), 46);
    assert_eq!(recombine(0xF, 0xF), 0xFF);
    assert_eq!(recombine(0, 0), 0);
}

#[test]
fn disassembly_lines() {
    let rom = [0x12, 0x00, 0x00, 0xE0, 0xAB];
    let rows = etherea::instruction::disassemble(&rom);
    assert_eq!(rows.len(), 2); // the trailing odd byte is ignored
    assert_eq!(rows[0], vec!['1', '2', '0', '0']);
    assert_eq!(rows[1], vec!['0', '0', 'E', '0']);
}

#[test]
fn hex_rendering() {
    assert_eq!(hex_digit(0), '0');
    assert_eq!(hex_digit(9), '9');
    assert_eq!(hex_digit(10), 'A');
    assert_eq!(hex_digit(15), 'F');
    let inst = Instruction::from(0x1A2F);
    assert_eq!(inst.hex(), vec!['1', 'A', '2', 'F']);
}
