//! The scheduler: one step of the whole grid.
//!
//! A tick gives every cell one turn, row by row from the bottom, so that what
//! falls into a row is not met again in the same tick. Within a row the scan
//! runs from the left on even ticks and from the right on odd ticks. A cell
//! that was written earlier in the tick has no turn.

use crate::board::{untouched, Board, Frame};
use crate::laws::acid::{hunger, sterile, tick_feeds_no_acid};
use crate::laws::mass::{barren, mass, tick_creates_no_mass};
use crate::laws::shape::tick_keeps_shape;
use crate::laws::walls::{walls_are_indestructible, walls_stand};
use crate::rules::turn;
use crate::universe::{Universe, World};
use vstd::prelude::*;

verus! {

/// The column of the cell that is `j`-th in the scan of a row of `width`
/// cells.
pub open spec fn column(f: Frame, width: int, j: int) -> int {
    if f.reverse() {
        width - 1 - j
    } else {
        j
    }
}

/// The board after the first `n` cells of row `y`, in the order of the scan,
/// have had their turn.
pub open spec fn run_row(f: Frame, b: Board, y: int, width: int, n: nat) -> Board
    decreases n,
{
    if n == 0 {
        b
    } else {
        turn(f, run_row(f, b, y, width, (n - 1) as nat), column(f, width, n - 1), y)
    }
}

/// The board after the lowest `m` rows have been scanned, the lowest first.
pub open spec fn run_rows(f: Frame, b: Board, m: nat) -> Board
    decreases m,
{
    if m == 0 {
        b
    } else {
        run_row(f, run_rows(f, b, (m - 1) as nat), b.height() - m, b.width(), b.width() as nat)
    }
}

/// The world one tick later: every row has been scanned on a board that
/// started unmarked, and the frame has moved on.
pub open spec fn tick(w: World) -> World {
    World {
        board: run_rows(w.frame, untouched(w.board.cells), w.board.height() as nat),
        frame: w.frame.next(),
    }
}

/// The world `n` ticks later.
pub open spec fn ticks(w: World, n: nat) -> World
    decreases n,
{
    if n == 0 {
        w
    } else {
        tick(ticks(w, (n - 1) as nat))
    }
}

impl Universe {
    /// Advances the whole grid by one step. The grid keeps its size and its
    /// walls. Without cloner, rocket, fungus, plant and seed it holds no more
    /// particles afterwards than before, and without cloner and rocket its
    /// acid has no more appetite afterwards than before.
    pub fn tick(&mut self)
        requires
            old(self).wf(),
        ensures
            final(self).wf(),
            final(self)@ == tick(old(self)@),
            old(self)@.board.fits(final(self)@.board),
            walls_stand(old(self)@.board, final(self)@.board),
            barren(old(self)@.board) ==> barren(final(self)@.board) && mass(
                final(self)@.board.cells,
            ) <= mass(old(self)@.board.cells),
            sterile(old(self)@.board) ==> sterile(final(self)@.board) && hunger(
                final(self)@.frame,
                final(self)@.board.cells,
            ) <= hunger(old(self)@.frame, old(self)@.board.cells),
    {
        proof {
            let w = self@;
            tick_keeps_shape(w, 1);
            walls_are_indestructible(w, 1);
            assert(ticks(w, 1) == tick(w)) by {
                assert(ticks(w, 1) == tick(ticks(w, 0)));
            }
            if barren(w.board) {
                tick_creates_no_mass(w);
            }
            if sterile(w.board) {
                tick_feeds_no_acid(w);
            }
        }
        self.clear_marks();
        let width = self.width();
        let height = self.height();
        let reverse = self.ticks() % 2 == 1;
        let ghost f = self@.frame;
        let ghost start = self@.board;
        let mut m: i32 = 0;
        while m < height
            invariant
                self.wf(),
                0 <= m <= height,
                0 < width,
                width == start.width(),
                height == start.height(),
                reverse == f.reverse(),
                self@.frame == f,
                self@.board == run_rows(f, start, m as nat),
            decreases height - m,
        {
            let y = height - 1 - m;
            let ghost row_start = self@.board;
            let mut n: i32 = 0;
            while n < width
                invariant
                    self.wf(),
                    0 <= n <= width,
                    reverse == f.reverse(),
                    self@.frame == f,
                    self@.board == run_row(f, row_start, y as int, width as int, n as nat),
                decreases width - n,
            {
                let x = if reverse {
                    width - 1 - n
                } else {
                    n
                };
                self.turn(x, y);
                n = n + 1;
            }
            m = m + 1;
        }
        self.close_tick();
    }
}

} // verus!
