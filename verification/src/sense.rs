//! What a rule reads of the grid around a cell.

use crate::board::{spec_dx, spec_dy, Board};
use crate::species::{Kind, Species};
use crate::universe::Universe;
use vstd::prelude::*;

verus! {

/// The column offset of direction `d`.
pub fn dx(d: u8) -> (dx: i32)
    ensures
        dx == spec_dx(d),
{
    if d == 1 || d == 2 || d == 3 {
        1
    } else if d == 5 || d == 6 || d == 7 {
        -1
    } else {
        0
    }
}

/// The row offset of direction `d`.
pub fn dy(d: u8) -> (dy: i32)
    ensures
        dy == spec_dy(d),
{
    if d == 7 || d == 0 || d == 1 {
        -1
    } else if d == 3 || d == 4 || d == 5 {
        1
    } else {
        0
    }
}

impl Universe {
    /// The place next to `(x, y)` in direction `d`, if it lies inside the
    /// grid.
    pub(crate) fn toward(&self, x: i32, y: i32, d: u8) -> (place: Option<(i32, i32)>)
        requires
            self.wf(),
        ensures
            place is Some <==> self@.board.inside(x + spec_dx(d), y + spec_dy(d)),
            place matches Some(p) ==> p.0 == x + spec_dx(d) && p.1 == y + spec_dy(d),
    {
        let nx: i64 = x as i64 + dx(d) as i64;
        let ny: i64 = y as i64 + dy(d) as i64;
        if 0 <= nx && nx < self.width() as i64 && 0 <= ny && ny < self.height() as i64 {
            Some((nx as i32, ny as i32))
        } else {
            None
        }
    }

    /// Whether the neighbour of `(x, y)` in direction `d` is inside the grid
    /// and of a species in `kind`.
    pub fn hit(&self, x: i32, y: i32, kind: Kind, d: u8) -> (yes: bool)
        requires
            self.wf(),
        ensures
            yes == self@.board.hit(x as int, y as int, kind, d),
    {
        match self.toward(x, y, d) {
            Some(p) => kind.holds(self.get_cell(p.0, p.1).species),
            None => false,
        }
    }

    /// The first direction, counting clockwise from `start % 8`, in which
    /// `(x, y)` has a neighbour of a species in `kind`; 8 if it has none.
    pub fn find(&self, x: i32, y: i32, kind: Kind, start: u8) -> (d: u8)
        requires
            self.wf(),
        ensures
            d == self@.board.find(x as int, y as int, kind, start),
            d <= 8,
            d < 8 ==> self@.board.hit(x as int, y as int, kind, d),
    {
        proof {
            reveal(Board::find);
        }
        let s: u8 = start % 8;
        if self.hit(x, y, kind, s) {
            s
        } else if self.hit(x, y, kind, (s + 1) % 8) {
            (s + 1) % 8
        } else if self.hit(x, y, kind, (s + 2) % 8) {
            (s + 2) % 8
        } else if self.hit(x, y, kind, (s + 3) % 8) {
            (s + 3) % 8
        } else if self.hit(x, y, kind, (s + 4) % 8) {
            (s + 4) % 8
        } else if self.hit(x, y, kind, (s + 5) % 8) {
            (s + 5) % 8
        } else if self.hit(x, y, kind, (s + 6) % 8) {
            (s + 6) % 8
        } else if self.hit(x, y, kind, (s + 7) % 8) {
            (s + 7) % 8
        } else {
            8
        }
    }

    /// Whether `(x, y)` has a neighbour inside the grid of a species in
    /// `kind`.
    pub fn near(&self, x: i32, y: i32, kind: Kind) -> (yes: bool)
        requires
            self.wf(),
        ensures
            yes == self@.board.near(x as int, y as int, kind),
    {
        self.find(x, y, kind, 0) < 8
    }

    /// Whether `(x, y)` is inside the grid and empty.
    pub fn vacant(&self, x: i32, y: i32) -> (yes: bool)
        requires
            self.wf(),
        ensures
            yes == self@.board.vacant(x as int, y as int),
    {
        self.contains(x, y) && self.get_cell(x, y).species == Species::Empty
    }

    /// Whether a particle of species `mover` can take the place `(x, y)`.
    pub(crate) fn open_to(&self, mover: Species, x: i32, y: i32) -> (yes: bool)
        requires
            self.wf(),
        ensures
            yes == self@.board.open_to(mover, x as int, y as int),
    {
        self.contains(x, y) && mover.displaces(self.get_cell(x, y).species)
    }

    /// The column that a particle at `(x, y)` reaches when it slides along
    /// its row in direction `dx` over empty cells, `reach` cells at most.
    pub(crate) fn slide(&self, x: i32, y: i32, dx: i32, reach: u8) -> (column: i32)
        requires
            self.wf(),
            self@.board.inside(x as int, y as int),
            dx == 1 || dx == -1,
        ensures
            column == self@.board.slide(x as int, y as int, dx as int, reach as nat),
            self@.board.inside(column as int, y as int),
    {
        let mut column: i32 = x;
        let mut left: u8 = reach;
        while left > 0 && self.vacant(column + dx, y)
            invariant
                self.wf(),
                dx == 1 || dx == -1,
                self@.board.inside(column as int, y as int),
                self@.board.slide(x as int, y as int, dx as int, reach as nat) == self@.board.slide(
                    column as int,
                    y as int,
                    dx as int,
                    left as nat,
                ),
            decreases left,
        {
            column = column + dx;
            left = left - 1;
        }
        column
    }

    /// The number of cells that stand on `(x, y)` in an unbroken column,
    /// counted up to `cap`.
    pub(crate) fn load(&self, x: i32, y: i32, cap: u16) -> (count: u16)
        requires
            self.wf(),
            self@.board.inside(x as int, y as int),
        ensures
            count == self@.board.load(x as int, y as int, cap as nat),
            count <= cap,
    {
        let mut row: i32 = y;
        let mut count: u16 = 0;
        while count < cap && self.contains(x, row - 1) && self.get_cell(x, row - 1).species
            != Species::Empty
            invariant
                self.wf(),
                self@.board.inside(x as int, row as int),
                count <= cap,
                self@.board.load(x as int, y as int, cap as nat) == count + self@.board.load(
                    x as int,
                    row as int,
                    (cap - count) as nat,
                ),
            decreases cap - count,
        {
            row = row - 1;
            count = count + 1;
        }
        count
    }

    /// The weight with which a mite at `(x, y)` picks direction `d`.
    pub(crate) fn lure(&self, x: i32, y: i32, d: u8) -> (weight: u8)
        requires
            self.wf(),
        ensures
            weight == self@.board.lure(x as int, y as int, d),
            weight <= 4,
    {
        match self.toward(x, y, d) {
            Some(p) => self.get_cell(p.0, p.1).species.lure(),
            None => 0,
        }
    }

    /// The sum of the weights of all eight directions around `(x, y)`.
    pub(crate) fn lure_total(&self, x: i32, y: i32) -> (total: u8)
        requires
            self.wf(),
        ensures
            total == self@.board.lure_below(x as int, y as int, 8),
            total <= 32,
    {
        let mut total: u8 = 0;
        let mut d: u8 = 0;
        while d < 8
            invariant
                self.wf(),
                d <= 8,
                total <= 4 * d,
                total == self@.board.lure_below(x as int, y as int, d),
            decreases 8 - d,
        {
            let w = self.lure(x, y, d);
            total = total + w;
            d = d + 1;
        }
        total
    }

    /// The direction that the ticket `t` falls to; 8 if `t` is not below the
    /// sum of the weights.
    pub(crate) fn wander(&self, x: i32, y: i32, t: u8) -> (d: u8)
        requires
            self.wf(),
        ensures
            d == self@.board.wander(x as int, y as int, t as nat, 0),
            d <= 8,
    {
        let mut d: u8 = 0;
        let mut left: u8 = t;
        while d < 8
            invariant
                self.wf(),
                d <= 8,
                self@.board.wander(x as int, y as int, t as nat, 0) == self@.board.wander(
                    x as int,
                    y as int,
                    left as nat,
                    d,
                ),
            decreases 8 - d,
        {
            let w = self.lure(x, y, d);
            if left < w {
                return d;
            }
            left = left - w;
            d = d + 1;
        }
        8
    }
}

} // verus!
