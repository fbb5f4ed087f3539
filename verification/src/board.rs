//! The mathematical model of the grid that the rules are stated over.
//!
//! A [`Board`] is the grid in the middle of a tick: the cells, row by row
//! from the top, and for each cell whether it was written in this tick. The
//! functions here read and write a board; none of them is executable. The
//! executable grid, `Universe`, is proved to follow them.

use crate::config::Config;
use crate::noise::spec_advance;
use crate::species::{Cell, Kind, Species};
use vstd::prelude::*;

verus! {

/// What a tick leaves as it is until its end: the constants, the seed that
/// its random choices derive from, and the number of ticks before it.
pub struct Frame {
    pub config: Config,
    pub seed: u32,
    pub ticks: u64,
}

impl Frame {
    /// Whether the rows are scanned from the right: on every odd tick.
    pub open spec fn reverse(self) -> bool {
        self.ticks % 2 == 1
    }

    /// The frame of the tick after this one: the seed has moved on and the
    /// count has grown by one, or started over from zero.
    pub open spec fn next(self) -> Frame {
        Frame {
            config: self.config,
            seed: spec_advance(self.seed),
            ticks: if self.ticks == u64::MAX {
                0
            } else {
                (self.ticks + 1) as u64
            },
        }
    }

    /// The horizontal direction that a particle tries first: that of the
    /// scan.
    pub open spec fn lean(self) -> int {
        if self.reverse() {
            -1
        } else {
            1
        }
    }
}

/// The column offset of direction `d`. Directions run clockwise from 0,
/// straight up.
pub open spec fn spec_dx(d: u8) -> int {
    if d == 1 || d == 2 || d == 3 {
        1
    } else if d == 5 || d == 6 || d == 7 {
        -1
    } else {
        0
    }
}

/// The row offset of direction `d`; rows grow downward.
pub open spec fn spec_dy(d: u8) -> int {
    if d == 7 || d == 0 || d == 1 {
        -1
    } else if d == 3 || d == 4 || d == 5 {
        1
    } else {
        0
    }
}

/// The grid in the middle of a tick.
#[verifier::ext_equal]
pub struct Board {
    /// The cells, `cells[y][x]`, with row 0 at the top.
    pub cells: Seq<Seq<Cell>>,
    /// For each cell, whether it was written since the tick began.
    pub moved: Seq<Seq<bool>>,
}

/// Whether `cells` is a rectangle of at least one cell whose sides fit `i32`.
pub open spec fn rectangular(cells: Seq<Seq<Cell>>) -> bool {
    &&& 0 < cells.len() <= i32::MAX
    &&& 0 < cells[0].len() <= i32::MAX
    &&& forall|y: int| 0 <= y < cells.len() ==> (#[trigger] cells[y]).len() == cells[0].len()
}

/// The board at the start of a tick: these cells, none of them written.
pub open spec fn untouched(cells: Seq<Seq<Cell>>) -> Board {
    Board {
        cells,
        moved: Seq::new(cells.len(), |y: int| Seq::new(cells[y].len(), |x: int| false)),
    }
}

impl Board {
    /// The number of rows.
    pub open spec fn height(self) -> int {
        self.cells.len() as int
    }

    /// The number of columns.
    pub open spec fn width(self) -> int {
        self.cells[0].len() as int
    }

    /// Whether `other` is a board of the same size as this one.
    pub open spec fn fits(self, other: Board) -> bool {
        other.wf() && other.width() == self.width() && other.height() == self.height()
    }

    /// Whether the board is a rectangle with a mark for every cell.
    pub open spec fn wf(self) -> bool {
        &&& rectangular(self.cells)
        &&& self.moved.len() == self.cells.len()
        &&& forall|y: int|
            0 <= y < self.moved.len() ==> (#[trigger] self.moved[y]).len() == self.cells[0].len()
    }

    /// Whether `(x, y)` is a place of the grid.
    pub open spec fn inside(self, x: int, y: int) -> bool {
        0 <= y < self.height() && 0 <= x < self.width()
    }

    /// The cell at `(x, y)`; every place outside the grid reads as wall.
    pub open spec fn at(self, x: int, y: int) -> Cell {
        if self.inside(x, y) {
            self.cells[y][x]
        } else {
            Cell::spec_wall()
        }
    }

    /// Whether the cell at `(x, y)` was written in this tick.
    pub open spec fn marked(self, x: int, y: int) -> bool {
        self.inside(x, y) && self.moved[y][x]
    }

    /// The board with `cell` written at `(x, y)` and marked; the same board
    /// if the place is outside.
    pub open spec fn put(self, x: int, y: int, cell: Cell) -> Board {
        if self.inside(x, y) {
            Board {
                cells: self.cells.update(y, self.cells[y].update(x, cell)),
                moved: self.moved.update(y, self.moved[y].update(x, true)),
            }
        } else {
            self
        }
    }

    /// The board with the cells at `(x, y)` and `(nx, ny)` exchanged, both
    /// marked; the same board if the two places are one or if either is
    /// outside.
    pub open spec fn relocate(self, x: int, y: int, nx: int, ny: int) -> Board {
        if (nx == x && ny == y) || !self.inside(x, y) || !self.inside(nx, ny) {
            self
        } else {
            self.put(nx, ny, self.at(x, y)).put(x, y, self.at(nx, ny))
        }
    }

    /// Whether the neighbour of `(x, y)` in direction `d` is inside the grid
    /// and of a species in `kind`.
    pub open spec fn hit(self, x: int, y: int, kind: Kind, d: u8) -> bool {
        self.inside(x + spec_dx(d), y + spec_dy(d)) && kind.spec_holds(
            self.at(x + spec_dx(d), y + spec_dy(d)).species,
        )
    }

    /// The first direction, counting clockwise from `start % 8`, in which
    /// `(x, y)` has a neighbour of a species in `kind`; 8 if it has none.
    #[verifier::opaque]
    pub open spec fn find(self, x: int, y: int, kind: Kind, start: u8) -> u8 {
        let s = start % 8;
        if self.hit(x, y, kind, s) {
            s
        } else if self.hit(x, y, kind, ((s + 1) % 8) as u8) {
            ((s + 1) % 8) as u8
        } else if self.hit(x, y, kind, ((s + 2) % 8) as u8) {
            ((s + 2) % 8) as u8
        } else if self.hit(x, y, kind, ((s + 3) % 8) as u8) {
            ((s + 3) % 8) as u8
        } else if self.hit(x, y, kind, ((s + 4) % 8) as u8) {
            ((s + 4) % 8) as u8
        } else if self.hit(x, y, kind, ((s + 5) % 8) as u8) {
            ((s + 5) % 8) as u8
        } else if self.hit(x, y, kind, ((s + 6) % 8) as u8) {
            ((s + 6) % 8) as u8
        } else if self.hit(x, y, kind, ((s + 7) % 8) as u8) {
            ((s + 7) % 8) as u8
        } else {
            8
        }
    }

    /// Whether `(x, y)` has a neighbour inside the grid of a species in
    /// `kind`.
    pub open spec fn near(self, x: int, y: int, kind: Kind) -> bool {
        self.find(x, y, kind, 0) < 8
    }

    /// Whether `(x, y)` is inside the grid and empty.
    pub open spec fn vacant(self, x: int, y: int) -> bool {
        self.inside(x, y) && self.cells[y][x].species == Species::Empty
    }

    /// Whether a particle of species `mover` can take the place `(x, y)`: the
    /// place is inside the grid and holds nothing, or a liquid that the mover
    /// sinks through.
    pub open spec fn open_to(self, mover: Species, x: int, y: int) -> bool {
        self.inside(x, y) && mover.spec_displaces(self.cells[y][x].species)
    }

    /// The weight with which a mite at `(x, y)` picks direction `d` for its
    /// next step; 0 for a place outside the grid.
    pub open spec fn lure(self, x: int, y: int, d: u8) -> nat {
        if self.inside(x + spec_dx(d), y + spec_dy(d)) {
            self.at(x + spec_dx(d), y + spec_dy(d)).species.spec_lure() as nat
        } else {
            0
        }
    }

    /// The sum of the weights of the directions below `d`.
    pub open spec fn lure_below(self, x: int, y: int, d: u8) -> nat
        decreases d,
    {
        if d == 0 {
            0
        } else {
            self.lure_below(x, y, (d - 1) as u8) + self.lure(x, y, (d - 1) as u8)
        }
    }

    /// The direction that the ticket `t` falls to when every direction holds
    /// as many tickets as its weight, drawn in order from direction `from`
    /// on; 8 if `t` is not below the sum of the weights from `from` on.
    pub open spec fn wander(self, x: int, y: int, t: nat, from: u8) -> u8
        decreases 8 - from,
    {
        if from >= 8 {
            8
        } else if t < self.lure(x, y, from) {
            from
        } else {
            self.wander(x, y, (t - self.lure(x, y, from)) as nat, (from + 1) as u8)
        }
    }

    /// The column that a particle at `(x, y)` reaches when it slides along
    /// its row in direction `dx` over empty cells, `reach` cells at most.
    pub open spec fn slide(self, x: int, y: int, dx: int, reach: nat) -> int
        decreases reach,
    {
        if reach == 0 || !self.vacant(x + dx, y) {
            x
        } else {
            self.slide(x + dx, y, dx, (reach - 1) as nat)
        }
    }

    /// The number of cells that stand on `(x, y)` in an unbroken column,
    /// counted up to `cap`.
    pub open spec fn load(self, x: int, y: int, cap: nat) -> nat
        decreases cap,
    {
        if cap == 0 || !self.inside(x, y - 1) || self.cells[y - 1][x].species == Species::Empty {
            0
        } else {
            1 + self.load(x, y - 1, (cap - 1) as nat)
        }
    }
}

} // verus!
