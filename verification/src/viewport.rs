//! The part of the text that the screen shows.

use vstd::prelude::*;

verus! {

/// The lines `start .. start + height`.
#[derive(Debug, Clone, Copy, PartialEq, Eq, Structural)]
pub struct Viewport {
    pub start: usize,
    pub height: usize,
}

impl Viewport {
    /// Line `row` is among the lines shown.
    pub open spec fn shows(self, row: int) -> bool {
        self.start <= row < self.start + self.height
    }

    /// The first line to show so that line `row` is shown: the present one
    /// where it is shown already, else the nearest that will do.
    pub open spec fn start_for(self, row: int) -> int {
        if row < self.start {
            row
        } else if row - self.start >= self.height {
            row - self.height + if self.height > 0 { 1int } else { 0int }
        } else {
            self.start as int
        }
    }

    /// The top of a text, `height` lines of it.
    pub fn new(height: usize) -> (viewport: Viewport)
        ensures
            viewport == (Viewport { start: 0, height }),
    {
        Viewport { start: 0, height }
    }

    /// Scrolls, as little as can be, so that the cursor's line is shown.
    pub fn update(&mut self, cursor_row: usize)
        ensures
            final(self).height == old(self).height,
            final(self).start == old(self).start_for(cursor_row as int),
            old(self).height > 0 ==> final(self).shows(cursor_row as int),
            old(self).shows(cursor_row as int) ==> final(self).start == old(self).start,
    {
        if cursor_row < self.start {
            self.start = cursor_row;
        } else if cursor_row - self.start >= self.height {
            self.start = if self.height > 0 {
                cursor_row - self.height + 1
            } else {
                cursor_row
            };
        }
    }
}

} // verus!
