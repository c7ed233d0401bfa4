//! The interpreter: memory, register file, index register, program
//! counter, call stack, and one handler per opcode family. Each handler
//! is a pure state transition with an exact contract; the dispatch over
//! the decoded nibbles ties them together.

use crate::bits;
use crate::display::{frame_of, Display};
use crate::font;
use crate::instruction::{nib0, nib1, nib2, nib3, Instruction};
use crate::timers::Timers;
use rand::Rng;
use vstd::prelude::*;

verus! {

/// Size of the addressable memory in bytes.
pub const MEMORY_SIZE: usize = 4096;

/// The start location for program-accessible memory.
pub const MEMORY_OFFSET: usize = 0x200;

/// Number of general registers.
pub const REGISTER_COUNT: usize = 16;

/// The 12-bit address held in the three low nibbles of an instruction.
pub open spec fn addr_of(n1: u8, n2: u8, n3: u8) -> u16 {
    (n1 * 256 + n2 * 16 + n3) as u16
}

/// The 8-bit immediate held in the two low nibbles of an instruction.
pub open spec fn imm_of(n1: u8, n2: u8) -> u8 {
    (n1 * 16 + n2) as u8
}

/// The big-endian 16-bit word at `pc` in `mem`.
pub open spec fn word_at(mem: Seq<u8>, pc: int) -> u16 {
    (mem[pc] * 256 + mem[pc + 1]) as u16
}

/// The instruction that decoding `w` yields.
pub open spec fn decoded(w: u16) -> Instruction {
    Instruction { n0: nib0(w), n1: nib1(w), n2: nib2(w), n3: nib3(w) }
}

/// 8-bit addition, wrapping on overflow.
pub open spec fn add_wrap(a: u8, b: u8) -> u8 {
    ((a + b) % 256) as u8
}

/// 8-bit subtraction, wrapping on underflow.
pub open spec fn sub_wrap(a: u8, b: u8) -> u8 {
    ((a + 256 - b) % 256) as u8
}

/// Memory after registers `0..=vx` are copied to addresses `i..=i+vx`.
pub open spec fn mem_after_store(mem: Seq<u8>, regs: Seq<u8>, i: int, vx: int) -> Seq<u8> {
    Seq::new(mem.len(), |p: int| if i <= p <= i + vx { regs[p - i] } else { mem[p] })
}

/// Registers after addresses `i..=i+vx` are copied into registers
/// `0..=vx`; the higher registers keep their values.
pub open spec fn regs_after_load(regs: Seq<u8>, mem: Seq<u8>, i: int, vx: int) -> Seq<u8> {
    Seq::new(regs.len(), |k: int| if 0 <= k <= vx { mem[i + k] } else { regs[k] })
}

/// Whether sprite row byte `b` covers column offset `c`; column 0 is the
/// most-significant bit.
pub open spec fn sprite_bit(b: u8, c: int) -> bool {
    b & (1u8 << ((7 - c) as u8)) != 0
}

/// Whether drawing a sprite of `h` rows taken from memory at `i`, with
/// origin `(x0, y0)`, flips grid cell `p`. Rows and columns past the
/// bottom or right edge are clipped, never wrapped: a cell matches only
/// at a row at or below `y0` and a column at or right of `x0`.
pub open spec fn sprite_hits(mem: Seq<u8>, i: int, x0: int, y0: int, h: int, p: int) -> bool {
    let r = p / 64 - y0;
    let c = p % 64 - x0;
    0 <= r < h && 0 <= c < 8 && sprite_bit(mem[i + r], c)
}

/// Whether the draw turns some previously-on cell off.
pub open spec fn draw_collides(g: Seq<bool>, mem: Seq<u8>, i: int, x0: int, y0: int, h: int) -> bool {
    exists|p: int| 0 <= p < 2048 && g[p] && sprite_hits(mem, i, x0, y0, h, p)
}

/// The sprite rows a draw actually reads from memory: rows past the
/// bottom edge are clipped, so only `min(height, 32 - VY % 32)` bytes
/// at the index register are touched.
pub open spec fn clipped_rows(vy_val: u8, height: u8) -> int {
    let y0 = vy_val as int % 32;
    if height as int <= 32 - y0 {
        height as int
    } else {
        32 - y0
    }
}

/// `sprite_hits` restricted to the part of the sprite already composed:
/// `rd` whole rows, then `cd` columns of row `rd`.
spec fn hits_partial(mem: Seq<u8>, i: int, x0: int, y0: int, rd: int, cd: int, p: int) -> bool {
    let r = p / 64 - y0;
    let c = p % 64 - x0;
    0 <= c < 8 && 0 <= r && (r < rd || (r == rd && c < cd)) && sprite_bit(mem[i + r], c)
}

/// Whether the part already composed turns some previously-on cell off.
spec fn collides_partial(
    g: Seq<bool>,
    mem: Seq<u8>,
    i: int,
    x0: int,
    y0: int,
    rd: int,
    cd: int,
) -> bool {
    exists|p: int| 0 <= p < 2048 && g[p] && hits_partial(mem, i, x0, y0, rd, cd, p)
}

/// Row `y` and column `x` of a grid cell index.
proof fn lemma_grid_index(x: int, y: int)
    requires
        0 <= x < 64,
        0 <= y < 32,
    ensures
        (y * 64 + x) / 64 == y,
        (y * 64 + x) % 64 == x,
        0 <= y * 64 + x < 2048,
{
    assert((y * 64 + x) / 64 == y && (y * 64 + x) % 64 == x && 0 <= y * 64 + x < 2048)
        by (nonlinear_arith)
        requires
            0 <= x < 64,
            0 <= y < 32,
    ;
}

/// Two displays hold the same pixels and presentation bytes.
pub open spec fn eq_display(a: Display, b: Display) -> bool {
    a.grid@ == b.grid@ && a.frame@ == b.frame@
}

/// `b` is `a` with at most the program counter changed.
pub open spec fn same_but_pc(a: Interpreter, b: Interpreter) -> bool {
    b.i == a.i && b.stack@ == a.stack@ && b.memory@ == a.memory@ && b.registers@ == a.registers@
        && eq_display(a.display, b.display) && b.attached == a.attached && b.ips == a.ips
}

/// `b` is `a` with at most the program counter and the stack changed.
pub open spec fn same_but_pc_stack(a: Interpreter, b: Interpreter) -> bool {
    b.i == a.i && b.memory@ == a.memory@ && b.registers@ == a.registers@ && eq_display(
        a.display,
        b.display,
    ) && b.attached == a.attached && b.ips == a.ips
}

/// `b` is `a` with at most the register file changed.
pub open spec fn same_but_regs(a: Interpreter, b: Interpreter) -> bool {
    b.i == a.i && b.pc == a.pc && b.stack@ == a.stack@ && b.memory@ == a.memory@ && eq_display(
        a.display,
        b.display,
    ) && b.attached == a.attached && b.ips == a.ips
}

/// `b` is `a` with at most the index register changed.
pub open spec fn same_but_i(a: Interpreter, b: Interpreter) -> bool {
    b.pc == a.pc && b.stack@ == a.stack@ && b.memory@ == a.memory@ && b.registers@ == a.registers@
        && eq_display(a.display, b.display) && b.attached == a.attached && b.ips == a.ips
}

/// `b` is `a` with at most the index register and register file changed.
pub open spec fn same_but_i_regs(a: Interpreter, b: Interpreter) -> bool {
    b.pc == a.pc && b.stack@ == a.stack@ && b.memory@ == a.memory@ && eq_display(
        a.display,
        b.display,
    ) && b.attached == a.attached && b.ips == a.ips
}

/// `b` is `a` with at most the memory changed.
pub open spec fn same_but_mem(a: Interpreter, b: Interpreter) -> bool {
    b.i == a.i && b.pc == a.pc && b.stack@ == a.stack@ && b.registers@ == a.registers@
        && eq_display(a.display, b.display) && b.attached == a.attached && b.ips == a.ips
}

/// `b` is `a` with at most the display changed.
pub open spec fn same_but_display(a: Interpreter, b: Interpreter) -> bool {
    b.i == a.i && b.pc == a.pc && b.stack@ == a.stack@ && b.memory@ == a.memory@ && b.registers@
        == a.registers@ && b.attached == a.attached && b.ips == a.ips
}

/// `b` is `a` with at most the register file and display changed.
pub open spec fn same_but_regs_display(a: Interpreter, b: Interpreter) -> bool {
    b.i == a.i && b.pc == a.pc && b.stack@ == a.stack@ && b.memory@ == a.memory@ && b.attached
        == a.attached && b.ips == a.ips
}

/// `b` and `a` hold the same state.
pub open spec fn same_state(a: Interpreter, b: Interpreter) -> bool {
    b.pc == a.pc && same_but_pc(a, b)
}

/// An all-zero memory image.
pub open spec fn zero_mem() -> Seq<u8> {
    Seq::new(4096, |p: int| 0u8)
}

/// An all-zero register file.
pub open spec fn zero_regs() -> Seq<u8> {
    Seq::new(16, |k: int| 0u8)
}

/// The memory image after a program is loaded: the font sprite set at
/// its fixed range, the program bytes from the program offset on, and
/// zero everywhere else.
pub open spec fn loaded_mem(rom: Seq<u8>) -> Seq<u8> {
    Seq::new(
        4096,
        |p: int|
            if 0x50 <= p < 0xA0 {
                font::font_seq()[p - 0x50]
            } else if 0x200 <= p < 0x200 + rom.len() {
                rom[p - 0x200]
            } else {
                0u8
            },
    )
}

/// What the execution harness must do after an instruction: carry on,
/// hand the fresh presentation buffer to the rendering sink, or consult
/// the key-event source and call back in.
#[derive(PartialEq, Eq, Structural, Clone, Copy, Debug)]
pub enum Effect {
    /// Plain instruction; nothing to do outside.
    Continue,
    /// A draw or clear completed; present the frame.
    Render,
    /// Block until a key event arrives, then store its value in VX
    /// through [`Interpreter::store_key`].
    WaitKey { vx: u8 },
    /// Wait briefly for at most one key event, then complete the skip
    /// through [`Interpreter::skip_key_with`].
    PollKey { vx: u8, press: bool },
}

/// A fatal condition: the machine stops, mirroring real hardware
/// halting on an illegal instruction.
#[derive(PartialEq, Eq, Structural, Clone, Copy, Debug)]
pub enum VmError {
    /// A nibble pattern matching none of the defined opcode shapes.
    UnknownOpcode { n0: u8, n1: u8, n2: u8, n3: u8 },
    /// A return with an empty call stack.
    StackUnderflow,
    /// A drawing or clearing opcode with no display attached.
    NoDisplay,
    /// A memory access or index computation out of the addressable
    /// range.
    AddressOutOfBounds,
}

/// The small-step semantics of the executor: how one decoded
/// instruction relates the pre-state (interpreter and timers) to the
/// post-state and the result. The program counter of `pre` already
/// points past the fetched instruction.
pub open spec fn step_rel(
    pre: Interpreter,
    post: Interpreter,
    tpre: Timers,
    tpost: Timers,
    inst: Instruction,
    r: Result<Effect, VmError>,
) -> bool {
    let a = inst.n0;
    let b = inst.n1;
    let c = inst.n2;
    let d = inst.n3;
    if a == 0 && b == 0 && c == 0xE && d == 0 {
        // clear
        if pre.attached {
            r == Ok::<Effect, VmError>(Effect::Render) && same_but_display(pre, post) && (forall|
                p: int,
            |
                0 <= p < 2048 ==> !post.display.grid@[p]) && post.display.frame@ == frame_of(
                post.display.grid@,
            ) && tpost == tpre
        } else {
            r == Err::<Effect, VmError>(VmError::NoDisplay) && same_state(pre, post) && tpost
                == tpre
        }
    } else if a == 0 && b == 0 && c == 0xE && d == 0xE {
        // return
        if pre.stack@.len() > 0 {
            r == Ok::<Effect, VmError>(Effect::Continue) && post.pc == pre.stack@.last()
                && post.stack@ == pre.stack@.drop_last() && same_but_pc_stack(pre, post) && tpost
                == tpre
        } else {
            r == Err::<Effect, VmError>(VmError::StackUnderflow) && same_state(pre, post) && tpost
                == tpre
        }
    } else if a == 1 {
        // jump
        r == Ok::<Effect, VmError>(Effect::Continue) && post.pc == addr_of(b, c, d) && same_but_pc(
            pre,
            post,
        ) && tpost == tpre
    } else if a == 2 {
        // call
        r == Ok::<Effect, VmError>(Effect::Continue) && post.pc == addr_of(b, c, d) && post.stack@
            == pre.stack@.push(pre.pc) && same_but_pc_stack(pre, post) && tpost == tpre
    } else if a == 3 || a == 4 {
        // skip-if-(not-)equal-imm
        r == Ok::<Effect, VmError>(Effect::Continue) && post.pc == if (a == 3) == (pre.registers@[b
            as int] == imm_of(c, d)) {
            (pre.pc + 2) as u16
        } else {
            pre.pc
        } && same_but_pc(pre, post) && tpost == tpre
    } else if (a == 5 || a == 9) && d == 0 {
        // skip-if-(not-)equal-reg
        r == Ok::<Effect, VmError>(Effect::Continue) && post.pc == if (a == 5) == (pre.registers@[b
            as int] == pre.registers@[c as int]) {
            (pre.pc + 2) as u16
        } else {
            pre.pc
        } && same_but_pc(pre, post) && tpost == tpre
    } else if a == 6 {
        // set-immediate
        r == Ok::<Effect, VmError>(Effect::Continue) && post.registers@ == pre.registers@.update(
            b as int,
            imm_of(c, d),
        ) && same_but_regs(pre, post) && tpost == tpre
    } else if a == 7 {
        // add-immediate
        r == Ok::<Effect, VmError>(Effect::Continue) && post.registers@ == pre.registers@.update(
            b as int,
            add_wrap(pre.registers@[b as int], imm_of(c, d)),
        ) && same_but_regs(pre, post) && tpost == tpre
    } else if a == 8 && d == 0 {
        // set
        r == Ok::<Effect, VmError>(Effect::Continue) && post.registers@ == pre.registers@.update(
            b as int,
            pre.registers@[c as int],
        ) && same_but_regs(pre, post) && tpost == tpre
    } else if a == 8 && d == 1 {
        // or
        r == Ok::<Effect, VmError>(Effect::Continue) && post.registers@ == pre.registers@.update(
            b as int,
            pre.registers@[b as int] | pre.registers@[c as int],
        ) && same_but_regs(pre, post) && tpost == tpre
    } else if a == 8 && d == 2 {
        // and
        r == Ok::<Effect, VmError>(Effect::Continue) && post.registers@ == pre.registers@.update(
            b as int,
            pre.registers@[b as int] & pre.registers@[c as int],
        ) && same_but_regs(pre, post) && tpost == tpre
    } else if a == 8 && d == 3 {
        // xor
        r == Ok::<Effect, VmError>(Effect::Continue) && post.registers@ == pre.registers@.update(
            b as int,
            pre.registers@[b as int] ^ pre.registers@[c as int],
        ) && same_but_regs(pre, post) && tpost == tpre
    } else if a == 8 && d == 4 {
        // add with carry flag
        r == Ok::<Effect, VmError>(Effect::Continue) && post.registers@ == pre.registers@.update(
            b as int,
            add_wrap(pre.registers@[b as int], pre.registers@[c as int]),
        ).update(
            15,
            if pre.registers@[b as int] + pre.registers@[c as int] > 255 {
                1u8
            } else {
                0u8
            },
        ) && same_but_regs(pre, post) && tpost == tpre
    } else if a == 8 && (d == 5 || d == 7) {
        // subtract with borrow flag; d == 5 is VX - VY, d == 7 is VY - VX
        let lhs = if d == 5 {
            pre.registers@[b as int]
        } else {
            pre.registers@[c as int]
        };
        let rhs = if d == 5 {
            pre.registers@[c as int]
        } else {
            pre.registers@[b as int]
        };
        r == Ok::<Effect, VmError>(Effect::Continue) && post.registers@ == pre.registers@.update(
            15,
            if lhs > rhs {
                1u8
            } else {
                0u8
            },
        ).update(b as int, sub_wrap(lhs, rhs)) && same_but_regs(pre, post) && tpost == tpre
    } else if a == 8 && d == 6 {
        // shift-right
        r == Ok::<Effect, VmError>(Effect::Continue) && post.registers@ == pre.registers@.update(
            b as int,
            (pre.registers@[b as int] / 2) as u8,
        ).update(15, (pre.registers@[b as int] % 2) as u8) && same_but_regs(pre, post) && tpost
            == tpre
    } else if a == 8 && d == 0xE {
        // shift-left
        r == Ok::<Effect, VmError>(Effect::Continue) && post.registers@ == pre.registers@.update(
            b as int,
            ((pre.registers@[b as int] * 2) % 256) as u8,
        ).update(
            15,
            if pre.registers@[b as int] >= 128 {
                1u8
            } else {
                0u8
            },
        ) && same_but_regs(pre, post) && tpost == tpre
    } else if a == 0xA {
        // set-index
        r == Ok::<Effect, VmError>(Effect::Continue) && post.i == addr_of(b, c, d) && same_but_i(
            pre,
            post,
        ) && tpost == tpre
    } else if a == 0xB {
        // jump-with-offset
        r == Ok::<Effect, VmError>(Effect::Continue) && post.pc == addr_of(b, c, d)
            + pre.registers@[0] && same_but_pc(pre, post) && tpost == tpre
    } else if a == 0xC {
        // random
        r == Ok::<Effect, VmError>(Effect::Continue) && (exists|q: u8|
            post.registers@ == pre.registers@.update(b as int, imm_of(c, d) & q)) && same_but_regs(
            pre,
            post,
        ) && tpost == tpre
    } else if a == 0xD {
        // draw
        if !pre.attached {
            r == Err::<Effect, VmError>(VmError::NoDisplay) && same_state(pre, post) && tpost
                == tpre
        } else if pre.i + clipped_rows(pre.registers@[c as int], d) > 4096 {
            r == Err::<Effect, VmError>(VmError::AddressOutOfBounds) && same_state(pre, post)
                && tpost == tpre
        } else {
            let x0 = pre.registers@[b as int] as int % 64;
            let y0 = pre.registers@[c as int] as int % 32;
            let i = pre.i as int;
            let mem = pre.memory@;
            let g0 = pre.display.grid@;
            let col = draw_collides(g0, mem, i, x0, y0, d as int);
            r == Ok::<Effect, VmError>(Effect::Render) && same_but_regs_display(pre, post) && (
            forall|p: int|
                0 <= p < 2048 ==> post.display.grid@[p] == (g0[p] != sprite_hits(
                    mem,
                    i,
                    x0,
                    y0,
                    d as int,
                    p,
                ))) && post.display.frame@ == frame_of(post.display.grid@) && post.registers@
                == pre.registers@.update(
                15,
                if col {
                    1u8
                } else {
                    0u8
                },
            ) && tpost == tpre
        }
    } else if a == 0xE && c == 9 && d == 0xE {
        // skip-if-key-pressed: decided outside, then completed through
        // skip_key_with
        r == Ok::<Effect, VmError>(Effect::PollKey { vx: b, press: true }) && same_state(pre, post)
            && tpost == tpre
    } else if a == 0xE && c == 0xA && d == 1 {
        // skip-if-key-not-pressed
        r == Ok::<Effect, VmError>(Effect::PollKey { vx: b, press: false }) && same_state(pre, post)
            && tpost == tpre
    } else if a == 0xF && c == 0 && d == 7 {
        // read-delay-timer
        r == Ok::<Effect, VmError>(Effect::Continue) && post.registers@ == pre.registers@.update(
            b as int,
            tpre.delay,
        ) && same_but_regs(pre, post) && tpost == tpre
    } else if a == 0xF && c == 1 && d == 5 {
        // set-delay-timer
        r == Ok::<Effect, VmError>(Effect::Continue) && same_state(pre, post) && tpost.delay
            == pre.registers@[b as int] && tpost.sound == tpre.sound
    } else if a == 0xF && c == 1 && d == 8 {
        // set-sound-timer
        r == Ok::<Effect, VmError>(Effect::Continue) && same_state(pre, post) && tpost.sound
            == pre.registers@[b as int] && tpost.delay == tpre.delay
    } else if a == 0xF && c == 1 && d == 0xE {
        // add-to-index
        if pre.i + pre.registers@[b as int] > 0xFFFF {
            r == Err::<Effect, VmError>(VmError::AddressOutOfBounds) && same_state(pre, post)
                && tpost == tpre
        } else {
            r == Ok::<Effect, VmError>(Effect::Continue) && post.i == pre.i + pre.registers@[b
                as int] && post.registers@ == if pre.i + pre.registers@[b as int] > 0x1000 {
                pre.registers@.update(15, 1u8)
            } else {
                pre.registers@
            } && same_but_i_regs(pre, post) && tpost == tpre
        }
    } else if a == 0xF && c == 0 && d == 0xA {
        // block-until-key: decided outside, then completed through
        // store_key
        r == Ok::<Effect, VmError>(Effect::WaitKey { vx: b }) && same_state(pre, post) && tpost
            == tpre
    } else if a == 0xF && c == 2 && d == 9 {
        // font-character: the low nibble of VX picks the glyph
        r == Ok::<Effect, VmError>(Effect::Continue) && post.i == 0x50 + (pre.registers@[b as int]
            & 0x0F) * 5 && same_but_i(pre, post) && tpost == tpre
    } else if a == 0xF && c == 3 && d == 3 {
        // BCD conversion
        if pre.i + 3 > 4096 {
            r == Err::<Effect, VmError>(VmError::AddressOutOfBounds) && same_state(pre, post)
                && tpost == tpre
        } else {
            r == Ok::<Effect, VmError>(Effect::Continue) && post.memory@ == pre.memory@.update(
                pre.i as int,
                (pre.registers@[b as int] / 100) as u8,
            ).update(pre.i + 1, ((pre.registers@[b as int] / 10) % 10) as u8).update(
                pre.i + 2,
                (pre.registers@[b as int] % 10) as u8,
            ) && same_but_mem(pre, post) && tpost == tpre
        }
    } else if a == 0xF && c == 5 && d == 5 {
        // store-to-memory
        if pre.i + b + 1 > 4096 {
            r == Err::<Effect, VmError>(VmError::AddressOutOfBounds) && same_state(pre, post)
                && tpost == tpre
        } else {
            r == Ok::<Effect, VmError>(Effect::Continue) && post.memory@ == mem_after_store(
                pre.memory@,
                pre.registers@,
                pre.i as int,
                b as int,
            ) && same_but_mem(pre, post) && tpost == tpre
        }
    } else if a == 0xF && c == 6 && d == 5 {
        // load-from-memory
        if pre.i + b + 1 > 4096 {
            r == Err::<Effect, VmError>(VmError::AddressOutOfBounds) && same_state(pre, post)
                && tpost == tpre
        } else {
            r == Ok::<Effect, VmError>(Effect::Continue) && post.registers@ == regs_after_load(
                pre.registers@,
                pre.memory@,
                pre.i as int,
                b as int,
            ) && same_but_regs(pre, post) && tpost == tpre
        }
    } else {
        // unknown opcode
        r == Err::<Effect, VmError>(
            VmError::UnknownOpcode { n0: a, n1: b, n2: c, n3: d },
        ) && same_state(pre, post) && tpost == tpre
    }
}

/// The CHIP-8 interpreter state.
#[derive(Debug)]
pub struct Interpreter {
    /// Index register.
    pub i: u16,
    /// Program counter.
    pub pc: u16,
    /// Call stack of return addresses.
    pub stack: Vec<u16>,
    /// Addressable memory.
    pub memory: Vec<u8>,
    /// The display; it takes part in execution only once attached.
    pub display: Display,
    /// Whether a display has been attached.
    pub attached: bool,
    /// Variable registers (V0..=VF).
    pub registers: Vec<u8>,
    /// Instructions per second.
    pub ips: u64,
}

/// A fresh byte vector of `n` zeroes.
fn zeroed(n: usize) -> (r: Vec<u8>)
    ensures
        r@.len() == n,
        forall|p: int| 0 <= p < n ==> r@[p] == 0,
{
    let mut r: Vec<u8> = Vec::new();
    while r.len() < n
        invariant
            r@.len() <= n,
            forall|p: int| 0 <= p < r@.len() ==> r@[p] == 0,
        decreases n - r@.len(),
    {
        r.push(0);
    }
    r
}

impl Interpreter {
    /// Memory and register file have their fixed sizes and the display
    /// buffers theirs.
    pub open spec fn wf(&self) -> bool {
        self.memory@.len() == 4096 && self.registers@.len() == 16 && self.display.wf()
    }

    /// Creates a new CHIP-8 instance with all state zeroed and no
    /// display attached.
    pub fn new() -> (r: Interpreter)
        ensures
            r.wf(),
            r.i == 0,
            r.pc == 0,
            r.stack@.len() == 0,
            r.memory@ == zero_mem(),
            r.registers@ == zero_regs(),
            forall|p: int| 0 <= p < 2048 ==> !r.display.grid@[p],
            r.display.frame@ == frame_of(r.display.grid@),
            !r.attached,
            r.ips == 0,
    {
        let r = Interpreter {
            i: 0,
            pc: 0,
            stack: Vec::new(),
            memory: zeroed(4096),
            display: Display::new(),
            attached: false,
            registers: zeroed(16),
            ips: 0,
        };
        proof {
            assert(r.memory@ =~= zero_mem());
            assert(r.registers@ =~= zero_regs());
        }
        r
    }

    /// Attaches the display to the interpreter.
    pub fn attach_display(&mut self, display: Display)
        requires
            display.wf(),
        ensures
            final(self).attached,
            eq_display(final(self).display, display),
            final(self).i == old(self).i,
            final(self).pc == old(self).pc,
            final(self).stack@ == old(self).stack@,
            final(self).memory@ == old(self).memory@,
            final(self).registers@ == old(self).registers@,
            final(self).ips == old(self).ips,
            old(self).wf() ==> final(self).wf(),
    {
        self.display = display;
        self.attached = true;
    }

    /// Sets the number of instructions to execute per second.
    pub fn with_ips(&mut self, ips: u64)
        ensures
            final(self).ips == ips,
            final(self).i == old(self).i,
            final(self).pc == old(self).pc,
            final(self).stack@ == old(self).stack@,
            final(self).memory@ == old(self).memory@,
            final(self).registers@ == old(self).registers@,
            eq_display(old(self).display, final(self).display),
            final(self).attached == old(self).attached,
            old(self).wf() ==> final(self).wf(),
    {
        self.ips = ips;
    }

    /// Loads the ROM into the interpreter's memory buffer and resets the
    /// index register, program counter, stack, memory (re-installing the
    /// font) and register file. The display and the configured rate are
    /// kept.
    pub fn load_rom(&mut self, rom: &[u8])
        requires
            rom@.len() <= 4096 - 0x200,
        ensures
            old(self).display.wf() ==> final(self).wf(),
            final(self).i == 0,
            final(self).pc == 0x200,
            final(self).stack@.len() == 0,
            final(self).memory@ == loaded_mem(rom@),
            final(self).registers@ == zero_regs(),
            eq_display(old(self).display, final(self).display),
            final(self).attached == old(self).attached,
            final(self).ips == old(self).ips,
    {
        self.i = 0;
        self.pc = 0x200;
        self.stack = Vec::new();
        self.memory = zeroed(4096);
        self.registers = zeroed(16);

        let f = font::font();
        let mut k: usize = 0;
        while k < 80
            invariant
                self.memory@.len() == 4096,
                f@ == font::font_seq(),
                k <= 80,
                self.i == 0,
                self.pc == 0x200,
                self.stack@.len() == 0,
                self.registers@.len() == 16,
                forall|q: int| 0 <= q < 16 ==> self.registers@[q] == 0,
                self.display == old(self).display,
                self.attached == old(self).attached,
                self.ips == old(self).ips,
                forall|p: int| 0 <= p < 0x50 ==> self.memory@[p] == 0,
                forall|p: int| 0x50 <= p < 0x50 + k ==> self.memory@[p] == font::font_seq()[p
                    - 0x50],
                forall|p: int| 0x50 + k <= p < 4096 ==> self.memory@[p] == 0,
            decreases 80 - k,
        {
            self.memory[0x50 + k] = f[k];
            k = k + 1;
        }

        let mut j: usize = 0;
        while j < rom.len()
            invariant
                self.memory@.len() == 4096,
                rom@.len() <= 4096 - 0x200,
                j <= rom@.len(),
                self.i == 0,
                self.pc == 0x200,
                self.stack@.len() == 0,
                self.registers@.len() == 16,
                forall|q: int| 0 <= q < 16 ==> self.registers@[q] == 0,
                self.display == old(self).display,
                self.attached == old(self).attached,
                self.ips == old(self).ips,
                forall|p: int| 0 <= p < 0x50 ==> self.memory@[p] == 0,
                forall|p: int| 0x50 <= p < 0xA0 ==> self.memory@[p] == font::font_seq()[p - 0x50],
                forall|p: int| 0xA0 <= p < 0x200 ==> self.memory@[p] == 0,
                forall|p: int| 0x200 <= p < 0x200 + j ==> self.memory@[p] == rom@[p - 0x200],
                forall|p: int| 0x200 + j <= p < 4096 ==> self.memory@[p] == 0,
            decreases rom@.len() - j,
        {
            let b = rom[j];
            self.memory[0x200 + j] = b;
            j = j + 1;
        }
        proof {
            assert(self.memory@ =~= loaded_mem(rom@));
            assert(self.registers@ =~= zero_regs());
        }
    }

    /// Fetches the big-endian instruction word at the program counter
    /// from memory and advances the program counter by 2.
    pub fn fetch(&mut self) -> (inst: u16)
        requires
            old(self).wf(),
            old(self).pc + 1 < 4096,
        ensures
            final(self).wf(),
            inst == word_at(old(self).memory@, old(self).pc as int),
            final(self).pc == old(self).pc + 2,
            same_but_pc(*old(self), *final(self)),
    {
        let hi = self.memory[self.pc as usize];
        let lo = self.memory[self.pc as usize + 1];
        self.pc = self.pc + 2;
        (hi as u16) * 256 + (lo as u16)
    }

    /// Fetches and decodes the instruction at the program counter.
    pub fn decode(&mut self) -> (inst: Instruction)
        requires
            old(self).wf(),
            old(self).pc + 1 < 4096,
        ensures
            final(self).wf(),
            inst == decoded(word_at(old(self).memory@, old(self).pc as int)),
            inst.wf(),
            final(self).pc == old(self).pc + 2,
            same_but_pc(*old(self), *final(self)),
    {
        Instruction::decode(self.fetch())
    }

    /// Subroutine call: pushes the current program counter, then jumps.
    pub fn call_subroutine(&mut self, n1: u8, n2: u8, n3: u8)
        requires
            old(self).wf(),
            n1 < 16,
            n2 < 16,
            n3 < 16,
        ensures
            final(self).wf(),
            final(self).pc == addr_of(n1, n2, n3),
            final(self).stack@ == old(self).stack@.push(old(self).pc),
            same_but_pc_stack(*old(self), *final(self)),
    {
        self.stack.push(self.pc);
        self.pc = (n1 as u16) * 256 + (bits::recombine(n2, n3) as u16);
    }

    /// Subroutine return: pops the stack into the program counter.
    pub fn subroutine_return(&mut self)
        requires
            old(self).wf(),
            old(self).stack@.len() > 0,
        ensures
            final(self).wf(),
            final(self).pc == old(self).stack@.last(),
            final(self).stack@ == old(self).stack@.drop_last(),
            same_but_pc_stack(*old(self), *final(self)),
    {
        let pc = self.stack.pop().unwrap();
        self.pc = pc;
    }

    /// Compares a register against an 8-bit immediate and advances the
    /// program counter by 2 extra if the (in)equality holds.
    pub fn skip_vx(&mut self, register: usize, n1: u8, n2: u8, equality: bool)
        requires
            old(self).wf(),
            register < 16,
            n1 < 16,
            n2 < 16,
            old(self).pc + 2 <= u16::MAX,
        ensures
            final(self).wf(),
            final(self).pc == if equality == (old(self).registers@[register as int] == imm_of(
                n1,
                n2,
            )) {
                (old(self).pc + 2) as u16
            } else {
                old(self).pc
            },
            same_but_pc(*old(self), *final(self)),
    {
        let vx = self.registers[register];
        let x = bits::recombine(n1, n2);
        if (equality && vx == x) || (!equality && vx != x) {
            self.pc = self.pc + 2;
        }
    }

    /// Compares two registers and advances the program counter by 2
    /// extra if the (in)equality holds.
    pub fn skip_vxy(&mut self, vx: usize, vy: usize, equality: bool)
        requires
            old(self).wf(),
            vx < 16,
            vy < 16,
            old(self).pc + 2 <= u16::MAX,
        ensures
            final(self).wf(),
            final(self).pc == if equality == (old(self).registers@[vx as int] == old(
                self,
            ).registers@[vy as int]) {
                (old(self).pc + 2) as u16
            } else {
                old(self).pc
            },
            same_but_pc(*old(self), *final(self)),
    {
        let x = self.registers[vx];
        let y = self.registers[vy];
        if (equality && x == y) || (!equality && x != y) {
            self.pc = self.pc + 2;
        }
    }

    /// Plain register copy: VX = VY.
    pub fn set(&mut self, vx: usize, vy: usize)
        requires
            old(self).wf(),
            vx < 16,
            vy < 16,
        ensures
            final(self).wf(),
            final(self).registers@ == old(self).registers@.update(
                vx as int,
                old(self).registers@[vy as int],
            ),
            same_but_regs(*old(self), *final(self)),
    {
        let v = self.registers[vy];
        self.registers[vx] = v;
    }

    /// Bitwise or: VX |= VY.
    pub fn or(&mut self, vx: usize, vy: usize)
        requires
            old(self).wf(),
            vx < 16,
            vy < 16,
        ensures
            final(self).wf(),
            final(self).registers@ == old(self).registers@.update(
                vx as int,
                old(self).registers@[vx as int] | old(self).registers@[vy as int],
            ),
            same_but_regs(*old(self), *final(self)),
    {
        let v = self.registers[vx] | self.registers[vy];
        self.registers[vx] = v;
    }

    /// Bitwise and: VX &= VY.
    pub fn and(&mut self, vx: usize, vy: usize)
        requires
            old(self).wf(),
            vx < 16,
            vy < 16,
        ensures
            final(self).wf(),
            final(self).registers@ == old(self).registers@.update(
                vx as int,
                old(self).registers@[vx as int] & old(self).registers@[vy as int],
            ),
            same_but_regs(*old(self), *final(self)),
    {
        let v = self.registers[vx] & self.registers[vy];
        self.registers[vx] = v;
    }

    /// Bitwise xor: VX ^= VY.
    pub fn xor(&mut self, vx: usize, vy: usize)
        requires
            old(self).wf(),
            vx < 16,
            vy < 16,
        ensures
            final(self).wf(),
            final(self).registers@ == old(self).registers@.update(
                vx as int,
                old(self).registers@[vx as int] ^ old(self).registers@[vy as int],
            ),
            same_but_regs(*old(self), *final(self)),
    {
        let v = self.registers[vx] ^ self.registers[vy];
        self.registers[vx] = v;
    }

    /// Addition VX += VY, wrapping; the flag register is then set to 1
    /// exactly when the true sum exceeds 255.
    pub fn add(&mut self, vx: usize, vy: usize)
        requires
            old(self).wf(),
            vx < 16,
            vy < 16,
        ensures
            final(self).wf(),
            final(self).registers@ == old(self).registers@.update(
                vx as int,
                add_wrap(old(self).registers@[vx as int], old(self).registers@[vy as int]),
            ).update(
                15,
                if old(self).registers@[vx as int] + old(self).registers@[vy as int] > 255 {
                    1u8
                } else {
                    0u8
                },
            ),
            same_but_regs(*old(self), *final(self)),
    {
        let x = self.registers[vx];
        let y = self.registers[vy];
        let s: u16 = (x as u16) + (y as u16);
        self.registers[vx] = (s % 256) as u8;
        self.registers[15] = if s > 255 {
            1
        } else {
            0
        };
    }

    /// Subtraction VX = lhs - rhs, wrapping; the flag register is first
    /// set to 1 exactly when lhs is strictly greater than rhs.
    pub fn sub(&mut self, vx: usize, lhs: usize, rhs: usize)
        requires
            old(self).wf(),
            vx < 16,
            lhs < 16,
            rhs < 16,
        ensures
            final(self).wf(),
            final(self).registers@ == old(self).registers@.update(
                15,
                if old(self).registers@[lhs as int] > old(self).registers@[rhs as int] {
                    1u8
                } else {
                    0u8
                },
            ).update(
                vx as int,
                sub_wrap(old(self).registers@[lhs as int], old(self).registers@[rhs as int]),
            ),
            same_but_regs(*old(self), *final(self)),
    {
        let l = self.registers[lhs];
        let r = self.registers[rhs];
        self.registers[15] = if l > r {
            1
        } else {
            0
        };
        let d: u16 = ((l as u16) + 256 - (r as u16)) % 256;
        self.registers[vx] = d as u8;
    }

    /// Left shift of the single named register; the flag register takes
    /// the bit shifted out (bit 7).
    pub fn shift_left(&mut self, vx: usize)
        requires
            old(self).wf(),
            vx < 16,
        ensures
            final(self).wf(),
            final(self).registers@ == old(self).registers@.update(
                vx as int,
                ((old(self).registers@[vx as int] * 2) % 256) as u8,
            ).update(
                15,
                if old(self).registers@[vx as int] >= 128 {
                    1u8
                } else {
                    0u8
                },
            ),
            same_but_regs(*old(self), *final(self)),
    {
        let v = self.registers[vx];
        let shifted = bits::set(7, v);
        proof {
            assert((v << 1u8) == (v * 2) % 256 && ((v & (1u8 << 7u8) != 0) <==> v >= 128))
                by (bit_vector);
        }
        self.registers[vx] = v << 1u8;
        self.registers[15] = if shifted {
            1
        } else {
            0
        };
    }

    /// Right shift of the single named register; the flag register takes
    /// the bit shifted out (bit 0).
    pub fn shift_right(&mut self, vx: usize)
        requires
            old(self).wf(),
            vx < 16,
        ensures
            final(self).wf(),
            final(self).registers@ == old(self).registers@.update(
                vx as int,
                (old(self).registers@[vx as int] / 2) as u8,
            ).update(
                15,
                (old(self).registers@[vx as int] % 2) as u8,
            ),
            same_but_regs(*old(self), *final(self)),
    {
        let v = self.registers[vx];
        let shifted = bits::set(0, v);
        proof {
            assert((v >> 1u8) == v / 2 && ((v & (1u8 << 0u8) != 0) <==> v % 2 == 1))
                by (bit_vector);
        }
        self.registers[vx] = v >> 1u8;
        self.registers[15] = if shifted {
            1
        } else {
            0
        };
    }

    /// Stores `mask & r` in VX: the masking step of the random opcode,
    /// for a draw `r` from the random source.
    pub fn random_with(&mut self, vx: usize, mask: u8, r: u8)
        requires
            old(self).wf(),
            vx < 16,
        ensures
            final(self).wf(),
            final(self).registers@ == old(self).registers@.update(vx as int, mask & r),
            same_but_regs(*old(self), *final(self)),
    {
        self.registers[vx] = mask & r;
    }

    /// Draws an 8-bit value from the process-wide random source, masks
    /// it with the immediate, and stores the result in VX.
    pub fn random(&mut self, vx: usize, n1: u8, n2: u8)
        requires
            old(self).wf(),
            vx < 16,
            n1 < 16,
            n2 < 16,
        ensures
            final(self).wf(),
            exists|r: u8|
                final(self).registers@ == old(self).registers@.update(vx as int, imm_of(n1, n2) & r),
            same_but_regs(*old(self), *final(self)),
    {
        let mask = bits::recombine(n1, n2);
        let r = random_byte();
        self.random_with(vx, mask, r);
        proof {
            assert(self.registers@ == old(self).registers@.update(vx as int, imm_of(n1, n2) & r));
        }
    }

    /// Reads the current delay counter value into VX.
    pub fn timer_to_vx(&mut self, vx: usize, timers: &Timers)
        requires
            old(self).wf(),
            vx < 16,
        ensures
            final(self).wf(),
            final(self).registers@ == old(self).registers@.update(vx as int, timers.delay),
            same_but_regs(*old(self), *final(self)),
    {
        self.registers[vx] = timers.delay;
    }

    /// Sets the delay timer (or, if `delay` is false, the sound timer)
    /// to the value of VX.
    pub fn vx_to_timer(&self, vx: usize, delay: bool, timers: &mut Timers)
        requires
            self.wf(),
            vx < 16,
        ensures
            if delay {
                final(timers).delay == self.registers@[vx as int] && final(timers).sound == old(
                    timers,
                ).sound
            } else {
                final(timers).sound == self.registers@[vx as int] && final(timers).delay == old(
                    timers,
                ).delay
            },
    {
        let value = self.registers[vx];
        if delay {
            timers.delay = value;
        } else {
            timers.sound = value;
        }
    }

    /// Adds VX to the index register as a 16-bit value; the flag
    /// register is set to 1 if the result exceeds 0x1000 (and is left
    /// alone otherwise).
    pub fn add_to_index(&mut self, vx: usize)
        requires
            old(self).wf(),
            vx < 16,
            old(self).i + old(self).registers@[vx as int] <= u16::MAX,
        ensures
            final(self).wf(),
            final(self).i == old(self).i + old(self).registers@[vx as int],
            final(self).registers@ == if old(self).i + old(self).registers@[vx as int] > 0x1000 {
                old(self).registers@.update(15, 1u8)
            } else {
                old(self).registers@
            },
            same_but_i_regs(*old(self), *final(self)),
    {
        self.i = self.i + (self.registers[vx] as u16);
        if self.i > 0x1000 {
            self.registers[15] = 1;
        }
    }

    /// Jump: program counter = 12-bit address.
    pub fn jump(&mut self, n1: u8, n2: u8, n3: u8)
        requires
            old(self).wf(),
            n1 < 16,
            n2 < 16,
            n3 < 16,
        ensures
            final(self).wf(),
            final(self).pc == addr_of(n1, n2, n3),
            same_but_pc(*old(self), *final(self)),
    {
        self.pc = (n1 as u16) * 256 + (bits::recombine(n2, n3) as u16);
    }

    /// Jump with offset: program counter = 12-bit address + V0.
    pub fn jump_with_offset(&mut self, n1: u8, n2: u8, n3: u8)
        requires
            old(self).wf(),
            n1 < 16,
            n2 < 16,
            n3 < 16,
        ensures
            final(self).wf(),
            final(self).pc == addr_of(n1, n2, n3) + old(self).registers@[0],
            same_but_pc(*old(self), *final(self)),
    {
        let address = (n1 as u16) * 256 + (bits::recombine(n2, n3) as u16);
        self.pc = address + (self.registers[0] as u16);
    }

    /// Font lookup: the index register takes the base address of the
    /// 5-byte glyph for the low nibble value held in VX.
    pub fn font_character(&mut self, vx: usize)
        requires
            old(self).wf(),
            vx < 16,
        ensures
            final(self).wf(),
            final(self).i == 0x50 + (old(self).registers@[vx as int] & 0x0F) * 5,
            same_but_i(*old(self), *final(self)),
    {
        let c = self.registers[vx] & 0x0F;
        proof {
            let v = old(self).registers@[vx as int];
            assert((v & 0x0F) < 16) by (bit_vector);
        }
        self.i = 0x50 + (c as u16) * 5;
    }

    /// Binary-coded-decimal conversion: the three decimal digits of VX
    /// are stored at addresses `i`, `i + 1`, `i + 2`, most-significant
    /// first.
    pub fn conversion(&mut self, vx: usize)
        requires
            old(self).wf(),
            vx < 16,
            old(self).i + 3 <= 4096,
        ensures
            final(self).wf(),
            final(self).memory@ == old(self).memory@.update(
                old(self).i as int,
                (old(self).registers@[vx as int] / 100) as u8,
            ).update(
                old(self).i + 1,
                ((old(self).registers@[vx as int] / 10) % 10) as u8,
            ).update(
                old(self).i + 2,
                (old(self).registers@[vx as int] % 10) as u8,
            ),
            same_but_mem(*old(self), *final(self)),
    {
        let x = self.registers[vx] as usize;
        let i = self.i as usize;
        proof {
            reveal_with_fuel(crate::bits::pow10, 3);
        }
        let left = bits::digit(2, x);
        let mid = bits::digit(1, x);
        let right = bits::digit(0, x);
        proof {
            assert(left == x / 100 && left < 256);
            assert(mid == (x / 10) % 10 && mid < 256);
            assert(right == x % 10 && right < 256);
        }
        self.memory[i] = left as u8;
        self.memory[i + 1] = mid as u8;
        self.memory[i + 2] = right as u8;
    }

    /// Copies registers `0..=vx` into memory starting at the index
    /// register address.
    pub fn store_to_memory(&mut self, vx: usize)
        requires
            old(self).wf(),
            vx < 16,
            old(self).i + vx + 1 <= 4096,
        ensures
            final(self).wf(),
            final(self).memory@ == mem_after_store(
                old(self).memory@,
                old(self).registers@,
                old(self).i as int,
                vx as int,
            ),
            same_but_mem(*old(self), *final(self)),
    {
        let i = self.i as usize;
        let mut k: usize = 0;
        while k <= vx
            invariant
                self.wf(),
                vx < 16,
                i + vx + 1 <= 4096,
                i == old(self).i,
                k <= vx + 1,
                self.registers@ == old(self).registers@,
                self.memory@.len() == 4096,
                forall|p: int|
                    0 <= p < 4096 && i <= p < i + k ==> self.memory@[p] == old(self).registers@[p
                        - i],
                forall|p: int|
                    0 <= p < 4096 && !(i <= p < i + k) ==> self.memory@[p] == old(self).memory@[p],
                same_but_mem(*old(self), *self),
            decreases vx + 1 - k,
        {
            let v = self.registers[k];
            self.memory[i + k] = v;
            k = k + 1;
        }
        proof {
            assert(self.memory@ =~= mem_after_store(
                old(self).memory@,
                old(self).registers@,
                old(self).i as int,
                vx as int,
            ));
        }
    }

    /// Copies memory starting at the index register address into
    /// registers `0..=vx`.
    pub fn load_from_memory(&mut self, vx: usize)
        requires
            old(self).wf(),
            vx < 16,
            old(self).i + vx + 1 <= 4096,
        ensures
            final(self).wf(),
            final(self).registers@ == regs_after_load(
                old(self).registers@,
                old(self).memory@,
                old(self).i as int,
                vx as int,
            ),
            same_but_regs(*old(self), *final(self)),
    {
        let i = self.i as usize;
        let mut k: usize = 0;
        while k <= vx
            invariant
                self.wf(),
                vx < 16,
                i + vx + 1 <= 4096,
                i == old(self).i,
                k <= vx + 1,
                self.memory@ == old(self).memory@,
                forall|q: int| 0 <= q < k ==> self.registers@[q] == old(self).memory@[i + q],
                forall|q: int| k <= q < 16 ==> self.registers@[q] == old(self).registers@[q],
                same_but_regs(*old(self), *self),
            decreases vx + 1 - k,
        {
            let v = self.memory[i + k];
            self.registers[k] = v;
            k = k + 1;
        }
        proof {
            assert(self.registers@ =~= regs_after_load(
                old(self).registers@,
                old(self).memory@,
                old(self).i as int,
                vx as int,
            ));
        }
    }

    /// Sets a register to an 8-bit immediate.
    pub fn set_register(&mut self, register: usize, n1: u8, n2: u8)
        requires
            old(self).wf(),
            register < 16,
            n1 < 16,
            n2 < 16,
        ensures
            final(self).wf(),
            final(self).registers@ == old(self).registers@.update(register as int, imm_of(n1, n2)),
            same_but_regs(*old(self), *final(self)),
    {
        let value = bits::recombine(n1, n2);
        self.registers[register] = value;
    }

    /// Adds an 8-bit immediate to a register, wrapping on overflow; no
    /// flag is set.
    pub fn add_to_register(&mut self, register: usize, n1: u8, n2: u8)
        requires
            old(self).wf(),
            register < 16,
            n1 < 16,
            n2 < 16,
        ensures
            final(self).wf(),
            final(self).registers@ == old(self).registers@.update(
                register as int,
                add_wrap(old(self).registers@[register as int], imm_of(n1, n2)),
            ),
            same_but_regs(*old(self), *final(self)),
    {
        let value = bits::recombine(n1, n2);
        let s: u16 = (self.registers[register] as u16) + (value as u16);
        self.registers[register] = (s % 256) as u8;
    }

    /// Sets the index register to a 12-bit address.
    pub fn set_memory_ptr(&mut self, n1: u8, n2: u8, n3: u8)
        requires
            old(self).wf(),
            n1 < 16,
            n2 < 16,
            n3 < 16,
        ensures
            final(self).wf(),
            final(self).i == addr_of(n1, n2, n3),
            same_but_i(*old(self), *final(self)),
    {
        self.i = (n1 as u16) * 256 + (bits::recombine(n2, n3) as u16);
    }

    /// Sprite drawing with collision detection: `height` rows of 8 bits
    /// each are read from memory at the index register and composed by
    /// XOR onto the grid at origin (VX % 64, VY % 32), most-significant
    /// bit leftmost. Rows and columns past the bottom or right edge are
    /// clipped, not wrapped. The flag register is set to 1 exactly when
    /// some previously-on pixel turns off, and the grid is then rendered
    /// to the presentation buffer.
    pub fn draw_sprite(&mut self, vx: usize, vy: usize, height: u8)
        requires
            old(self).wf(),
            vx < 16,
            vy < 16,
            height < 16,
            old(self).attached,
            old(self).i + clipped_rows(old(self).registers@[vy as int], height) <= 4096,
        ensures
            final(self).wf(),
            same_but_regs_display(*old(self), *final(self)),
            ({
                let x0 = old(self).registers@[vx as int] as int % 64;
                let y0 = old(self).registers@[vy as int] as int % 32;
                let i = old(self).i as int;
                let mem = old(self).memory@;
                let g0 = old(self).display.grid@;
                let col = draw_collides(g0, mem, i, x0, y0, height as int);
                &&& forall|p: int|
                    0 <= p < 2048 ==> final(self).display.grid@[p] == (g0[p] != sprite_hits(
                        mem,
                        i,
                        x0,
                        y0,
                        height as int,
                        p,
                    ))
                &&& final(self).display.frame@ == frame_of(final(self).display.grid@)
                &&& final(self).registers@ == old(self).registers@.update(
                    15,
                    if col {
                        1u8
                    } else {
                        0u8
                    },
                )
            }),
    {
        let x0: usize = (self.registers[vx] % 64) as usize;
        let y0: usize = (self.registers[vy] % 32) as usize;
        let i = self.i as usize;
        let h = height as usize;
        let ghost mem = self.memory@;
        let ghost g0 = self.display.grid@;
        let ghost regs0 = self.registers@;
        self.registers[15] = 0;

        let rows: usize = if h < 32 - y0 {
            h
        } else {
            32 - y0
        };
        let cols: usize = if 64 - x0 < 8 {
            64 - x0
        } else {
            8
        };

        proof {
            assert(self.registers@ =~= regs0.update(15, 0u8));
            assert(!collides_partial(g0, mem, i as int, x0 as int, y0 as int, 0, 0));
        }

        let mut r: usize = 0;
        while r < rows
            invariant
                self.wf(),
                x0 < 64,
                y0 < 32,
                h < 16,
                i + rows <= 4096,
                rows as int == if (h as int) < 32 - (y0 as int) {
                    h as int
                } else {
                    32 - (y0 as int)
                },
                cols as int == if 64 - (x0 as int) < 8 {
                    64 - (x0 as int)
                } else {
                    8int
                },
                r <= rows,
                mem == self.memory@,
                mem.len() == 4096,
                g0 == old(self).display.grid@,
                g0.len() == 2048,
                regs0 == old(self).registers@,
                regs0.len() == 16,
                same_but_regs_display(*old(self), *self),
                self.display.frame@ == old(self).display.frame@,
                forall|p: int|
                    0 <= p < 2048 ==> self.display.grid@[p] == (g0[p] != hits_partial(
                        mem,
                        i as int,
                        x0 as int,
                        y0 as int,
                        r as int,
                        0,
                        p,
                    )),
                self.registers@ == regs0.update(
                    15,
                    if collides_partial(g0, mem, i as int, x0 as int, y0 as int, r as int, 0) {
                        1u8
                    } else {
                        0u8
                    },
                ),
            decreases rows - r,
        {
            let sprite = self.memory[i + r];
            let mut c: usize = 0;
            while c < cols
                invariant
                    self.wf(),
                    x0 < 64,
                    y0 < 32,
                    h < 16,
                    i + rows <= 4096,
                    rows as int == if (h as int) < 32 - (y0 as int) {
                        h as int
                    } else {
                        32 - (y0 as int)
                    },
                    cols as int == if 64 - (x0 as int) < 8 {
                        64 - (x0 as int)
                    } else {
                        8int
                    },
                    r < rows,
                    c <= cols,
                    sprite == mem[i + r],
                    mem == self.memory@,
                    mem.len() == 4096,
                    g0 == old(self).display.grid@,
                    g0.len() == 2048,
                    regs0 == old(self).registers@,
                    regs0.len() == 16,
                    same_but_regs_display(*old(self), *self),
                    self.display.frame@ == old(self).display.frame@,
                    forall|p: int|
                        0 <= p < 2048 ==> self.display.grid@[p] == (g0[p] != hits_partial(
                            mem,
                            i as int,
                            x0 as int,
                            y0 as int,
                            r as int,
                            c as int,
                            p,
                        )),
                    self.registers@ == regs0.update(
                        15,
                        if collides_partial(
                            g0,
                            mem,
                            i as int,
                            x0 as int,
                            y0 as int,
                            r as int,
                            c as int,
                        ) {
                            1u8
                        } else {
                            0u8
                        },
                    ),
                decreases cols - c,
            {
                let ghost ii = i as int;
                let ghost xx = x0 as int;
                let ghost yy = y0 as int;
                let ghost rr = r as int;
                let ghost cc = c as int;
                let ghost p0: int = (yy + rr) * 64 + (xx + cc);
                proof {
                    lemma_grid_index(xx + cc, yy + rr);
                    assert(!hits_partial(mem, ii, xx, yy, rr, cc, p0));
                }
                let on = bits::set((7 - c) as u8, sprite);
                if on {
                    let was = self.display.flip(x0 + c, y0 + r);
                    if was {
                        self.registers[15] = 1;
                    }
                    proof {
                        assert(sprite_bit(mem[ii + rr], cc));
                        assert(hits_partial(mem, ii, xx, yy, rr, cc + 1, p0));
                        assert forall|p: int| 0 <= p < 2048 && p != p0 implies hits_partial(
                            mem,
                            ii,
                            xx,
                            yy,
                            rr,
                            cc + 1,
                            p,
                        ) == hits_partial(mem, ii, xx, yy, rr, cc, p) by {
                            vstd::arithmetic::div_mod::lemma_fundamental_div_mod(p, 64);
                        }
                        if was {
                            assert(g0[p0]);
                            assert(collides_partial(g0, mem, ii, xx, yy, rr, cc + 1));
                            assert(self.registers@ =~= regs0.update(15, 1u8));
                        } else {
                            assert(!g0[p0]);
                            assert(collides_partial(g0, mem, ii, xx, yy, rr, cc + 1)
                                == collides_partial(g0, mem, ii, xx, yy, rr, cc)) by {
                                if collides_partial(g0, mem, ii, xx, yy, rr, cc + 1) {
                                    let p = choose|p: int|
                                        0 <= p < 2048 && g0[p] && hits_partial(
                                            mem,
                                            ii,
                                            xx,
                                            yy,
                                            rr,
                                            cc + 1,
                                            p,
                                        );
                                    assert(p != p0);
                                    assert(hits_partial(mem, ii, xx, yy, rr, cc, p));
                                }
                                if collides_partial(g0, mem, ii, xx, yy, rr, cc) {
                                    let p = choose|p: int|
                                        0 <= p < 2048 && g0[p] && hits_partial(
                                            mem,
                                            ii,
                                            xx,
                                            yy,
                                            rr,
                                            cc,
                                            p,
                                        );
                                    assert(hits_partial(mem, ii, xx, yy, rr, cc + 1, p));
                                }
                            }
                        }
                    }
                } else {
                    proof {
                        assert(!sprite_bit(mem[ii + rr], cc));
                        assert forall|p: int| 0 <= p < 2048 implies hits_partial(
                            mem,
                            ii,
                            xx,
                            yy,
                            rr,
                            cc + 1,
                            p,
                        ) == hits_partial(mem, ii, xx, yy, rr, cc, p) by {
                            vstd::arithmetic::div_mod::lemma_fundamental_div_mod(p, 64);
                        }
                        assert(collides_partial(g0, mem, ii, xx, yy, rr, cc + 1) == collides_partial(
                            g0,
                            mem,
                            ii,
                            xx,
                            yy,
                            rr,
                            cc,
                        )) by {
                            if collides_partial(g0, mem, ii, xx, yy, rr, cc + 1) {
                                let p = choose|p: int|
                                    0 <= p < 2048 && g0[p] && hits_partial(
                                        mem,
                                        ii,
                                        xx,
                                        yy,
                                        rr,
                                        cc + 1,
                                        p,
                                    );
                                assert(hits_partial(mem, ii, xx, yy, rr, cc, p));
                            }
                            if collides_partial(g0, mem, ii, xx, yy, rr, cc) {
                                let p = choose|p: int|
                                    0 <= p < 2048 && g0[p] && hits_partial(mem, ii, xx, yy, rr, cc, p);
                                assert(hits_partial(mem, ii, xx, yy, rr, cc + 1, p));
                            }
                        }
                    }
                }
                c = c + 1;
            }
            proof {
                let ii = i as int;
                let xx = x0 as int;
                let yy = y0 as int;
                let rr = r as int;
                assert forall|p: int| 0 <= p < 2048 implies hits_partial(
                    mem,
                    ii,
                    xx,
                    yy,
                    rr,
                    cols as int,
                    p,
                ) == hits_partial(mem, ii, xx, yy, rr + 1, 0, p) by {
                    assert(0 <= p % 64 < 64);
                }
                assert(collides_partial(g0, mem, ii, xx, yy, rr, cols as int) == collides_partial(
                    g0,
                    mem,
                    ii,
                    xx,
                    yy,
                    rr + 1,
                    0,
                )) by {
                    if collides_partial(g0, mem, ii, xx, yy, rr, cols as int) {
                        let p = choose|p: int|
                            0 <= p < 2048 && g0[p] && hits_partial(mem, ii, xx, yy, rr, cols as int, p);
                        assert(hits_partial(mem, ii, xx, yy, rr + 1, 0, p));
                    }
                    if collides_partial(g0, mem, ii, xx, yy, rr + 1, 0) {
                        let p = choose|p: int|
                            0 <= p < 2048 && g0[p] && hits_partial(mem, ii, xx, yy, rr + 1, 0, p);
                        assert(0 <= p % 64 < 64);
                        assert(hits_partial(mem, ii, xx, yy, rr, cols as int, p));
                    }
                }
            }
            r = r + 1;
        }
        proof {
            let ii = i as int;
            let xx = x0 as int;
            let yy = y0 as int;
            assert forall|p: int| 0 <= p < 2048 implies hits_partial(
                mem,
                ii,
                xx,
                yy,
                rows as int,
                0,
                p,
            ) == sprite_hits(mem, ii, xx, yy, h as int, p) by {
                assert(0 <= p / 64 < 32) by (nonlinear_arith)
                    requires
                        0 <= p < 2048,
                ;
            }
            assert(collides_partial(g0, mem, ii, xx, yy, rows as int, 0) == draw_collides(
                g0,
                mem,
                ii,
                xx,
                yy,
                h as int,
            )) by {
                if collides_partial(g0, mem, ii, xx, yy, rows as int, 0) {
                    let p = choose|p: int|
                        0 <= p < 2048 && g0[p] && hits_partial(mem, ii, xx, yy, rows as int, 0, p);
                    assert(sprite_hits(mem, ii, xx, yy, h as int, p));
                }
                if draw_collides(g0, mem, ii, xx, yy, h as int) {
                    let p = choose|p: int|
                        0 <= p < 2048 && g0[p] && sprite_hits(mem, ii, xx, yy, h as int, p);
                    assert(0 <= p / 64 < 32) by (nonlinear_arith)
                        requires
                            0 <= p < 2048,
                    ;
                    assert(hits_partial(mem, ii, xx, yy, rows as int, 0, p));
                }
            }
        }
        self.display.render();
    }

    /// Stores a key value delivered by the input subsystem in VX: the
    /// completion of the block-until-key opcode.
    pub fn store_key(&mut self, vx: usize, key: u8)
        requires
            old(self).wf(),
            vx < 16,
        ensures
            final(self).wf(),
            final(self).registers@ == old(self).registers@.update(vx as int, key),
            same_but_regs(*old(self), *final(self)),
    {
        self.registers[vx] = key;
    }

    /// Completes a skip-if-key opcode for the outcome of a bounded wait:
    /// with no key in time neither skip occurs; with one, the program
    /// counter advances by 2 extra on match (for the press form) or on
    /// mismatch (for the other form).
    pub fn skip_key_with(&mut self, vx: usize, key: Option<u8>, press: bool)
        requires
            old(self).wf(),
            vx < 16,
            old(self).pc + 2 <= u16::MAX,
        ensures
            final(self).wf(),
            final(self).pc == match key {
                Some(k) => if press == (old(self).registers@[vx as int] == k) {
                    (old(self).pc + 2) as u16
                } else {
                    old(self).pc
                },
                None => old(self).pc,
            },
            same_but_pc(*old(self), *final(self)),
    {
        if let Some(k) = key {
            let v = self.registers[vx];
            if (press && v == k) || (!press && v != k) {
                self.pc = self.pc + 2;
            }
        }
    }

    /// Executes one decoded instruction: dispatches on the nibble tuple
    /// to the handler for its opcode family. The relation between the
    /// old and the new state is exactly [`step_rel`].
    pub fn execute_instruction(&mut self, inst: &Instruction, timers: &mut Timers) -> (r: Result<
        Effect,
        VmError,
    >)
        requires
            old(self).wf(),
            inst.wf(),
            old(self).pc + 2 <= u16::MAX,
        ensures
            final(self).wf(),
            step_rel(*old(self), *final(self), *old(timers), *final(timers), *inst, r),
    {
        match (inst.n0, inst.n1, inst.n2, inst.n3) {
            (0, 0, 0xE, 0) => {
                if !self.attached {
                    return Err(VmError::NoDisplay);
                }
                self.display.clear();
                Ok(Effect::Render)
            },
            (0, 0, 0xE, 0xE) => {
                if self.stack.len() == 0 {
                    return Err(VmError::StackUnderflow);
                }
                self.subroutine_return();
                Ok(Effect::Continue)
            },
            (1, n1, n2, n3) => {
                self.jump(n1, n2, n3);
                Ok(Effect::Continue)
            },
            (2, n1, n2, n3) => {
                self.call_subroutine(n1, n2, n3);
                Ok(Effect::Continue)
            },
            (3, x, n1, n2) => {
                self.skip_vx(x as usize, n1, n2, true);
                Ok(Effect::Continue)
            },
            (4, x, n1, n2) => {
                self.skip_vx(x as usize, n1, n2, false);
                Ok(Effect::Continue)
            },
            (5, x, y, 0) => {
                self.skip_vxy(x as usize, y as usize, true);
                Ok(Effect::Continue)
            },
            (9, x, y, 0) => {
                self.skip_vxy(x as usize, y as usize, false);
                Ok(Effect::Continue)
            },
            (6, x, n1, n2) => {
                self.set_register(x as usize, n1, n2);
                Ok(Effect::Continue)
            },
            (7, x, n1, n2) => {
                self.add_to_register(x as usize, n1, n2);
                Ok(Effect::Continue)
            },
            (8, x, y, 0) => {
                self.set(x as usize, y as usize);
                Ok(Effect::Continue)
            },
            (8, x, y, 1) => {
                self.or(x as usize, y as usize);
                Ok(Effect::Continue)
            },
            (8, x, y, 2) => {
                self.and(x as usize, y as usize);
                Ok(Effect::Continue)
            },
            (8, x, y, 3) => {
                self.xor(x as usize, y as usize);
                Ok(Effect::Continue)
            },
            (8, x, y, 4) => {
                self.add(x as usize, y as usize);
                Ok(Effect::Continue)
            },
            (8, x, y, 5) => {
                self.sub(x as usize, x as usize, y as usize);
                Ok(Effect::Continue)
            },
            (8, x, y, 7) => {
                self.sub(x as usize, y as usize, x as usize);
                Ok(Effect::Continue)
            },
            (8, x, _, 6) => {
                self.shift_right(x as usize);
                Ok(Effect::Continue)
            },
            (8, x, _, 0xE) => {
                self.shift_left(x as usize);
                Ok(Effect::Continue)
            },
            (0xA, n1, n2, n3) => {
                self.set_memory_ptr(n1, n2, n3);
                Ok(Effect::Continue)
            },
            (0xB, n1, n2, n3) => {
                self.jump_with_offset(n1, n2, n3);
                Ok(Effect::Continue)
            },
            (0xC, x, n1, n2) => {
                self.random(x as usize, n1, n2);
                Ok(Effect::Continue)
            },
            (0xD, x, y, height) => {
                if !self.attached {
                    return Err(VmError::NoDisplay);
                }
                let y0 = (self.registers[y as usize] % 32) as usize;
                let rows: usize = if (height as usize) < 32 - y0 {
                    height as usize
                } else {
                    32 - y0
                };
                if (self.i as usize) + rows > 4096 {
                    return Err(VmError::AddressOutOfBounds);
                }
                self.draw_sprite(x as usize, y as usize, height);
                Ok(Effect::Render)
            },
            (0xE, x, 0x9, 0xE) => Ok(Effect::PollKey { vx: x, press: true }),
            (0xE, x, 0xA, 0x1) => Ok(Effect::PollKey { vx: x, press: false }),
            (0xF, x, 0, 7) => {
                self.timer_to_vx(x as usize, timers);
                Ok(Effect::Continue)
            },
            (0xF, x, 1, 5) => {
                self.vx_to_timer(x as usize, true, timers);
                Ok(Effect::Continue)
            },
            (0xF, x, 1, 8) => {
                self.vx_to_timer(x as usize, false, timers);
                Ok(Effect::Continue)
            },
            (0xF, x, 0x1, 0xE) => {
                if (self.i as u32) + (self.registers[x as usize] as u32) > 0xFFFF {
                    return Err(VmError::AddressOutOfBounds);
                }
                self.add_to_index(x as usize);
                Ok(Effect::Continue)
            },
            (0xF, x, 0x0, 0xA) => Ok(Effect::WaitKey { vx: x }),
            (0xF, x, 2, 9) => {
                self.font_character(x as usize);
                Ok(Effect::Continue)
            },
            (0xF, x, 3, 3) => {
                if (self.i as usize) + 3 > 4096 {
                    return Err(VmError::AddressOutOfBounds);
                }
                self.conversion(x as usize);
                Ok(Effect::Continue)
            },
            (0xF, x, 5, 5) => {
                if (self.i as usize) + (x as usize) + 1 > 4096 {
                    return Err(VmError::AddressOutOfBounds);
                }
                self.store_to_memory(x as usize);
                Ok(Effect::Continue)
            },
            (0xF, x, 6, 5) => {
                if (self.i as usize) + (x as usize) + 1 > 4096 {
                    return Err(VmError::AddressOutOfBounds);
                }
                self.load_from_memory(x as usize);
                Ok(Effect::Continue)
            },
            _ => Err(
                VmError::UnknownOpcode { n0: inst.n0, n1: inst.n1, n2: inst.n2, n3: inst.n3 },
            ),
        }
    }

    /// One full machine step: fetches the word at the program counter,
    /// decodes it, and executes it. A program counter at the edge of
    /// memory is a fatal address error.
    pub fn step(&mut self, timers: &mut Timers) -> (r: Result<Effect, VmError>)
        requires
            old(self).wf(),
        ensures
            final(self).wf(),
            old(self).pc + 1 >= 4096 ==> r == Err::<Effect, VmError>(VmError::AddressOutOfBounds)
                && same_state(*old(self), *final(self)) && *final(timers) == *old(timers),
            old(self).pc + 1 < 4096 ==> step_rel(
                Interpreter { pc: (old(self).pc + 2) as u16, ..*old(self) },
                *final(self),
                *old(timers),
                *final(timers),
                decoded(word_at(old(self).memory@, old(self).pc as int)),
                r,
            ),
    {
        if (self.pc as usize) + 1 >= 4096 {
            return Err(VmError::AddressOutOfBounds);
        }
        let inst = self.decode();
        self.execute_instruction(&inst, timers)
    }
}

/// Relies on `rand::thread_rng` and `rand::Rng::gen`: draws one byte
/// from the process-wide random source. Nothing is promised of the
/// value.
#[verifier::external_body]
fn random_byte() -> u8 {
    rand::thread_rng().gen()
}

} // verus!
