//! The delay and sound timers: two independent 8-bit counters decremented
//! at a fixed 60 Hz rate, decoupled from the instruction rate. The value
//! type here carries no lock of its own; the execution harness shares one
//! `Timers` value between the execute loop and the timer loop under its
//! own synchronization, scoped tightly around each call into this module.

use vstd::prelude::*;

verus! {

/// The CHIP-8 delay and sound timers.
#[derive(PartialEq, Eq, Structural, Clone, Copy, Debug)]
pub struct Timers {
    pub delay: u8,
    pub sound: u8,
}

impl Timers {
    /// Creates both timers at zero.
    pub fn new() -> (t: Timers)
        ensures
            t.delay == 0,
            t.sound == 0,
    {
        Timers { delay: 0, sound: 0 }
    }

    /// One 60 Hz tick: decrements each timer by exactly one if it is
    /// greater than zero, and never below zero.
    pub fn update(&mut self)
        ensures
            final(self).delay == if old(self).delay > 0 {
                (old(self).delay - 1) as u8
            } else {
                0u8
            },
            final(self).sound == if old(self).sound > 0 {
                (old(self).sound - 1) as u8
            } else {
                0u8
            },
    {
        if self.delay > 0 {
            self.delay = self.delay - 1;
        }
        if self.sound > 0 {
            self.sound = self.sound - 1;
        }
    }
}

} // verus!
