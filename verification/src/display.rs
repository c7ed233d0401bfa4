//! The CHIP-8 display: a 64 x 32 monochrome pixel grid. The boolean grid
//! is the single source of truth; drawing mutates it by XOR composition.
//! A render copies the grid into a presentation buffer of one RGBA quad
//! per pixel, which the windowing layer outside the library puts on
//! screen.

use vstd::prelude::*;

verus! {

/// Width of the display grid in pixels.
pub const WIDTH: usize = 64;

/// Height of the display grid in pixels.
pub const HEIGHT: usize = 32;

/// Pixels in the grid.
pub const GRID_SIZE: usize = 2048;

/// Bytes in the presentation buffer: one RGBA quad per pixel.
pub const FRAME_SIZE: usize = 8192;

/// The presentation bytes for grid `g`: each pixel becomes four bytes,
/// 0xFF each if the pixel is on, 0x00 each if it is off.
pub open spec fn frame_of(g: Seq<bool>) -> Seq<u8> {
    Seq::new(8192, |k: int| if g[k / 4] { 0xFFu8 } else { 0u8 })
}

/// The CHIP-8 display: the scratch grid mutated by drawing, and the
/// presentation buffer it is copied to on render.
#[derive(Debug)]
pub struct Display {
    /// The pixel grid, row-major: pixel (x, y) is `grid[y * WIDTH + x]`.
    pub grid: Vec<bool>,
    /// The presentation buffer, copied from the grid on render.
    pub frame: Vec<u8>,
}

impl Display {
    /// Both buffers have their fixed sizes.
    pub open spec fn wf(&self) -> bool {
        self.grid@.len() == 2048 && self.frame@.len() == 8192
    }

    /// The state of the pixel at (`x`, `y`).
    pub open spec fn pixel(&self, x: int, y: int) -> bool {
        self.grid@[y * 64 + x]
    }

    /// Creates a display with every pixel off and the presentation
    /// buffer zeroed.
    pub fn new() -> (d: Display)
        ensures
            d.wf(),
            forall|p: int| 0 <= p < 2048 ==> !d.grid@[p],
            d.frame@ == frame_of(d.grid@),
    {
        let mut grid: Vec<bool> = Vec::new();
        while grid.len() < 2048
        invariant
            forall|p: int| 0 <= p < grid@.len() ==> !grid@[p],
            grid@.len() <= 2048,
        decreases 2048 - grid@.len(),
        {
            grid.push(false);
        }
        let mut frame: Vec<u8> = Vec::new();
        while frame.len() < 8192
        invariant
            forall|k: int| 0 <= k < frame@.len() ==> frame@[k] == 0,
            frame@.len() <= 8192,
        decreases 8192 - frame@.len(),
        {
            frame.push(0);
        }
        let d = Display { grid, frame };
        proof {
            assert(d.frame@ =~= frame_of(d.grid@));
        }
        d
    }

    /// Flips the pixel at (`x`, `y`) and reports whether it was on
    /// before the flip (an on pixel turned off: a collision).
    pub fn flip(&mut self, x: usize, y: usize) -> (was_on: bool)
        requires
            old(self).wf(),
            x < 64,
            y < 32,
        ensures
            final(self).wf(),
            was_on == old(self).pixel(x as int, y as int),
            final(self).grid@ == old(self).grid@.update(
                y as int * 64 + x as int,
                !old(self).pixel(x as int, y as int),
            ),
            final(self).frame@ == old(self).frame@,
    {
        let idx: usize = y * 64 + x;
        let cur: bool = self.grid[idx];
        self.grid[idx] = !cur;
        cur
    }

    /// The state of the pixel at (`x`, `y`).
    pub fn get_at(&self, x: usize, y: usize) -> (on: bool)
        requires
            self.wf(),
            x < 64,
            y < 32,
        ensures
            on == self.pixel(x as int, y as int),
    {
        self.grid[y * 64 + x]
    }

    /// Copies the grid to the presentation buffer, overwriting it.
    pub fn render(&mut self)
        requires
            old(self).wf(),
        ensures
            final(self).wf(),
            final(self).grid@ == old(self).grid@,
            final(self).frame@ == frame_of(old(self).grid@),
    {
        let mut k: usize = 0;
        while k < 8192
        invariant
            self.wf(),
            k <= 8192,
            self.grid@ == old(self).grid@,
            forall|j: int| 0 <= j < k ==> self.frame@[j] == frame_of(self.grid@)[j],
        decreases 8192 - k,
        {
            let v: u8 = if self.grid[k / 4] {
                0xFF
            } else {
                0
            };
            self.frame[k] = v;
            k = k + 1;
        }
        proof {
            assert(self.frame@ =~= frame_of(self.grid@));
        }
    }

    /// Zeroes the entire grid, then renders.
    pub fn clear(&mut self)
        requires
            old(self).wf(),
        ensures
            final(self).wf(),
            forall|p: int| 0 <= p < 2048 ==> !final(self).grid@[p],
            final(self).frame@ == frame_of(final(self).grid@),
    {
        let mut p: usize = 0;
        while p < 2048
        invariant
            self.wf(),
            p <= 2048,
            forall|j: int| 0 <= j < p ==> !self.grid@[j],
        decreases 2048 - p,
        {
            self.grid[p] = false;
            p = p + 1;
        }
        self.render();
    }
}

} // verus!
