//! Laws of the machine that relate several operations, stated and
//! proved over the same spec functions the operations' contracts use.

use crate::instruction::{nib0, nib1, nib2, nib3};
use crate::interpreter::{
    addr_of, decoded, mem_after_store, regs_after_load, same_state, sprite_hits, step_rel, word_at,
    Effect, Interpreter, VmError,
};
use crate::timers::Timers;
use vstd::prelude::*;

verus! {

/// A store of registers `0..=vx` to memory at `i`, followed by a load
/// from the same address into any register file, restores registers
/// `0..=vx` to their original values.
pub proof fn lemma_store_load_round_trip(
    mem: Seq<u8>,
    regs: Seq<u8>,
    regs2: Seq<u8>,
    i: int,
    vx: int,
)
    requires
        mem.len() == 4096,
        regs.len() == 16,
        regs2.len() == 16,
        0 <= vx < 16,
        0 <= i,
        i + vx + 1 <= 4096,
    ensures
        forall|k: int|
            0 <= k <= vx ==> regs_after_load(regs2, mem_after_store(mem, regs, i, vx), i, vx)[k]
                == regs[k],
{
}

/// XOR composition cancels: drawing the same sprite at the same origin
/// twice leaves every pixel of the grid as it started.
pub proof fn lemma_draw_twice_cancels(
    g: Seq<bool>,
    mem: Seq<u8>,
    i: int,
    x0: int,
    y0: int,
    h: int,
)
    ensures
        forall|p: int|
            0 <= p < g.len() ==> ((g[p] != sprite_hits(mem, i, x0, y0, h, p)) != sprite_hits(
                mem,
                i,
                x0,
                y0,
                h,
                p,
            )) == g[p],
{
}

/// A program whose instruction at the program counter is a jump back to
/// that same address makes no progress and raises no error: one step
/// returns the machine to the identical state, so it never advances
/// past that instruction.
pub proof fn lemma_self_jump_loops(
    pre: Interpreter,
    post: Interpreter,
    tpre: Timers,
    tpost: Timers,
    r: Result<Effect, VmError>,
)
    requires
        pre.pc < 0x1000,
        word_at(pre.memory@, pre.pc as int) == 0x1000 + pre.pc,
        step_rel(
            Interpreter { pc: (pre.pc + 2) as u16, ..pre },
            post,
            tpre,
            tpost,
            decoded(word_at(pre.memory@, pre.pc as int)),
            r,
        ),
    ensures
        r == Ok::<Effect, VmError>(Effect::Continue),
        same_state(pre, post),
        tpost == tpre,
{
    let w = word_at(pre.memory@, pre.pc as int);
    assert(0x1000 <= w < 0x2000 ==> nib0(w) == 1 && nib1(w) * 256 + nib2(w) * 16 + nib3(w) == w
        - 0x1000) by (bit_vector);
    assert(addr_of(nib1(w), nib2(w), nib3(w)) == pre.pc);
}

} // verus!
