//! Instruction decoding: a fetched 16-bit word decomposed into four
//! 4-bit nibbles, most-significant first. The nibble tuple is the sole
//! dispatch key of the executor.

use vstd::prelude::*;

verus! {

/// Nibble 0 of `v`: bits 12..16 (most significant).
pub open spec fn nib0(v: u16) -> u8 {
    ((v >> 12) & 0xF) as u8
}

/// Nibble 1 of `v`: bits 8..12.
pub open spec fn nib1(v: u16) -> u8 {
    ((v >> 8) & 0xF) as u8
}

/// Nibble 2 of `v`: bits 4..8.
pub open spec fn nib2(v: u16) -> u8 {
    ((v >> 4) & 0xF) as u8
}

/// Nibble 3 of `v`: bits 0..4 (least significant).
pub open spec fn nib3(v: u16) -> u8 {
    (v & 0xF) as u8
}

/// A CHIP-8 instruction: four ordered 4-bit nibbles.
#[derive(PartialEq, Eq, Structural, Clone, Copy, Debug)]
pub struct Instruction {
    pub n0: u8,
    pub n1: u8,
    pub n2: u8,
    pub n3: u8,
}

impl Instruction {
    /// Every nibble fits in 4 bits.
    pub open spec fn wf(self) -> bool {
        self.n0 < 16 && self.n1 < 16 && self.n2 < 16 && self.n3 < 16
    }

    /// Decodes a fetched 16-bit word into its four nibbles.
    pub fn decode(v: u16) -> (r: Instruction)
        ensures
            r.n0 == nib0(v),
            r.n1 == nib1(v),
            r.n2 == nib2(v),
            r.n3 == nib3(v),
            r.wf(),
    {
        proof {
            assert(((v >> 12) & 0xF) < 16 && ((v >> 8) & 0xF) < 16 && ((v >> 4) & 0xF) < 16 && (v
                & 0xF) < 16) by (bit_vector);
        }
        Instruction {
            n0: ((v >> 12) & 0xF) as u8,
            n1: ((v >> 8) & 0xF) as u8,
            n2: ((v >> 4) & 0xF) as u8,
            n3: (v & 0xF) as u8,
        }
    }

    /// The four nibbles as hexadecimal digits, most-significant first:
    /// one line of disassembly text for this instruction.
    pub fn hex(&self) -> (r: Vec<char>)
        requires
            self.wf(),
        ensures
            r@ == seq![
                hex_char(self.n0),
                hex_char(self.n1),
                hex_char(self.n2),
                hex_char(self.n3),
            ],
    {
        let mut r: Vec<char> = Vec::new();
        r.push(hex_digit(self.n0));
        r.push(hex_digit(self.n1));
        r.push(hex_digit(self.n2));
        r.push(hex_digit(self.n3));
        proof {
            assert(r@ =~= seq![
                hex_char(self.n0),
                hex_char(self.n1),
                hex_char(self.n2),
                hex_char(self.n3),
            ]);
        }
        r
    }
}

impl From<u16> for Instruction {
    /// Decodes the word, exactly as [`Instruction::decode`] does.
    fn from(v: u16) -> (r: Self) {
        Instruction::decode(v)
    }
}

impl vstd::std_specs::convert::FromSpecImpl<u16> for Instruction {
    open spec fn obeys_from_spec() -> bool {
        true
    }

    open spec fn from_spec(v: u16) -> Instruction {
        Instruction { n0: nib0(v), n1: nib1(v), n2: nib2(v), n3: nib3(v) }
    }
}

/// The upper-case hexadecimal digit standing for `n`.
pub open spec fn hex_char(n: u8) -> char {
    if n < 10 {
        (n + 48) as char
    } else {
        (n + 55) as char
    }
}

/// Renders one nibble as an upper-case hexadecimal digit.
pub fn hex_digit(n: u8) -> (c: char)
    requires
        n < 16,
    ensures
        c == hex_char(n),
{
    if n < 10 {
        (n + 48) as char
    } else {
        (n + 55) as char
    }
}

/// One line of hexadecimal-nibble text for each big-endian 16-bit word
/// of the byte stream; a trailing odd byte is ignored.
pub fn disassemble(rom: &[u8]) -> (r: Vec<Vec<char>>)
    ensures
        r@.len() == rom@.len() / 2,
        forall|k: int|
            0 <= k < r@.len() ==> r@[k]@ == ({
                let w = (rom@[2 * k] * 256 + rom@[2 * k + 1]) as u16;
                seq![hex_char(nib0(w)), hex_char(nib1(w)), hex_char(nib2(w)), hex_char(nib3(w))]
            }),
{
    let mut r: Vec<Vec<char>> = Vec::new();
    let len = rom.len();
    let n = len / 2;
    let mut k: usize = 0;
    while k < n
        invariant
            len == rom@.len(),
            n == len / 2,
            k <= n,
            r@.len() == k,
            forall|j: int|
                0 <= j < k ==> r@[j]@ == ({
                    let w = (rom@[2 * j] * 256 + rom@[2 * j + 1]) as u16;
                    seq![
                        hex_char(nib0(w)),
                        hex_char(nib1(w)),
                        hex_char(nib2(w)),
                        hex_char(nib3(w)),
                    ]
                }),
        decreases n - k,
    {
        proof {
            assert(2 * (len / 2) <= len) by (nonlinear_arith);
        }
        let w = (rom[2 * k] as u16) * 256 + (rom[2 * k + 1] as u16);
        let inst = Instruction::decode(w);
        let line = inst.hex();
        r.push(line);
        k = k + 1;
    }
    r
}

/// Decoding a word and recombining its four nibbles into two bytes
/// reproduces the word exactly.
pub proof fn lemma_decode_recombine(v: u16)
    ensures
        (nib0(v) * 16 + nib1(v)) * 256 + (nib2(v) * 16 + nib3(v)) == v,
{
    assert(((((v >> 12) & 0xF) as u8) * 16 + (((v >> 8) & 0xF) as u8)) * 256 + ((((v >> 4) & 0xF)
        as u8) * 16 + ((v & 0xF) as u8)) == v) by (bit_vector);
}

} // verus!
