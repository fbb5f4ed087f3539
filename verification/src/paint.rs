//! The brush: stamping a disc of one material onto the grid.

use crate::board::{Board, Frame};
use crate::laws::brush::{point_brush_paints_one_cell, point_brush_spares};
use crate::laws::shape::lemma_stamp_fits;
use crate::noise::{advance, noise, spec_advance, spec_noise};
use crate::species::{Cell, Species};
use crate::universe::{Universe, World};
use vstd::prelude::*;

verus! {

/// Whether the offset `(dx, dy)` lies in the closed disc of the given radius.
/// No offset lies in a disc of negative radius.
pub open spec fn in_disc(dx: int, dy: int, radius: int) -> bool {
    radius >= 0 && dx * dx + dy * dy <= radius * radius
}

/// An offset in a disc is within the radius along each axis.
pub proof fn lemma_disc_bound(dx: int, dy: int, radius: int)
    requires
        in_disc(dx, dy, radius),
    ensures
        -radius <= dx <= radius,
        -radius <= dy <= radius,
{
    assert(dx * dx + dy * dy <= radius * radius && radius >= 0 ==> -radius <= dx <= radius
        && -radius <= dy <= radius) by (nonlinear_arith);
}

/// Whether the offset `(dx, dy)` lies in the closed disc of the given radius.
pub fn within(dx: i64, dy: i64, radius: i32) -> (yes: bool)
    ensures
        yes == in_disc(dx as int, dy as int, radius as int),
{
    let r: i64 = radius as i64;
    if r < 0 {
        false
    } else if dx < -r || dx > r || dy < -r || dy > r {
        proof {
            if in_disc(dx as int, dy as int, radius as int) {
                lemma_disc_bound(dx as int, dy as int, radius as int);
            }
        }
        false
    } else {
        assert(0 <= dx * dx <= r * r && 0 <= dy * dy <= r * r && r * r <= 0x3fff_ffff_0000_0001)
            by (nonlinear_arith)
            requires
                -r <= dx <= r,
                -r <= dy <= r,
                0 <= r <= 0x7fff_ffff,
        ;
        dx * dx + dy * dy <= r * r
    }
}

/// A new particle of `species` whose bytes come from the draw `r`. A cloner
/// starts unbound, a fire leaves no smoke, wood starts unexposed, and an
/// empty cell has no bytes.
pub open spec fn spec_fresh(species: Species, r: u32) -> Cell {
    let ra = ((r / 0x1_0000) % 256) as u8;
    let rb = ((r / 0x100_0000) % 256) as u8;
    match species {
        Species::Empty => Cell::spec_empty(),
        Species::Cloner => Cell { species, ra: 0, rb },
        Species::Fire | Species::Wood => Cell { species, ra, rb: 0 },
        _ => Cell { species, ra, rb },
    }
}

/// A new particle of `species` whose bytes come from the draw `r`. A cloner
/// starts unbound, a fire leaves no smoke, wood starts unexposed, and an
/// empty cell has no bytes.
#[verifier::when_used_as_spec(spec_fresh)]
pub fn fresh(species: Species, r: u32) -> (cell: Cell)
    ensures
        cell == spec_fresh(species, r),
{
    let ra: u8 = ((r / 0x1_0000) % 256) as u8;
    let rb: u8 = ((r / 0x100_0000) % 256) as u8;
    match species {
        Species::Empty => Cell::empty(),
        Species::Cloner => Cell { species, ra: 0, rb },
        Species::Fire | Species::Wood => Cell { species, ra, rb: 0 },
        _ => Cell { species, ra, rb },
    }
}

/// Whether a stroke of `species` may replace `old`: walls stay, except under
/// the eraser.
pub open spec fn spec_paintable(old: Species, species: Species) -> bool {
    old != Species::Wall || species == Species::Empty
}

/// Whether a stroke of `species` may replace `old`: walls stay, except under
/// the eraser.
#[verifier::when_used_as_spec(spec_paintable)]
pub fn paintable(old: Species, species: Species) -> (yes: bool)
    ensures
        yes == spec_paintable(old, species),
{
    old != Species::Wall || species == Species::Empty
}

impl Board {
    /// What a stroke of `species` with centre `(cx, cy)` leaves at `(x, y)`,
    /// a place inside the grid: a fresh particle where the place lies in the
    /// disc and may be painted, else what was there.
    pub open spec fn stamped_cell(
        self,
        seed: u32,
        cx: int,
        cy: int,
        radius: int,
        species: Species,
        x: int,
        y: int,
    ) -> Cell {
        if in_disc(x - cx, y - cy, radius) && spec_paintable(self.cells[y][x].species, species) {
            spec_fresh(species, spec_noise(seed, x, y))
        } else {
            self.cells[y][x]
        }
    }

    /// Whether a stroke of `species` with centre `(cx, cy)` writes the cell
    /// at `(x, y)`.
    pub open spec fn stamped_mark(
        self,
        cx: int,
        cy: int,
        radius: int,
        species: Species,
        x: int,
        y: int,
    ) -> bool {
        self.moved[y][x] || (in_disc(x - cx, y - cy, radius) && spec_paintable(
            self.cells[y][x].species,
            species,
        ))
    }

    /// The board after a stroke: every cell of the disc around `(cx, cy)`
    /// that may be painted holds a fresh particle of `species` and is marked.
    pub open spec fn stamp(self, seed: u32, cx: int, cy: int, radius: int, species: Species)
        -> Board {
        Board {
            cells: Seq::new(
                self.cells.len(),
                |y: int|
                    Seq::new(
                        self.cells[y].len(),
                        |x: int| self.stamped_cell(seed, cx, cy, radius, species, x, y),
                    ),
            ),
            moved: Seq::new(
                self.moved.len(),
                |y: int|
                    Seq::new(
                        self.moved[y].len(),
                        |x: int| self.stamped_mark(cx, cy, radius, species, x, y),
                    ),
            ),
        }
    }
}

/// The world after a stroke of the brush: the disc is stamped with bytes
/// drawn from the seed, and the seed has moved on.
pub open spec fn paint(w: World, x: int, y: int, radius: int, species: Species) -> World {
    World {
        board: w.board.stamp(w.frame.seed, x, y, radius, species),
        frame: Frame { seed: spec_advance(w.frame.seed), ..w.frame },
    }
}

/// Whether `(i, j)` comes before `(x, y)` when the box `x0 ..= x1` by
/// `y0 ..= y1` is walked row by row.
pub open spec fn walked(i: int, j: int, x: int, y: int, x0: int, x1: int, y0: int, y1: int)
    -> bool {
    x0 <= i <= x1 && y0 <= j <= y1 && (j < y || (j == y && i < x))
}

impl Universe {
    /// Stamps a disc: every cell within `radius` of `(cx, cy)` that may be
    /// painted becomes a fresh particle of `species`, with bytes drawn from
    /// `seed` and its place, and is marked. A negative radius stamps nothing.
    pub(crate) fn stamp(&mut self, seed: u32, cx: i32, cy: i32, radius: i32, species: Species)
        requires
            old(self).wf(),
        ensures
            final(self).wf(),
            final(self)@.board == old(self)@.board.stamp(
                seed,
                cx as int,
                cy as int,
                radius as int,
                species,
            ),
            final(self)@.frame == old(self)@.frame,
    {
        let ghost start = self@.board;
        let width: i64 = self.width() as i64;
        let height: i64 = self.height() as i64;
        let r: i64 = if radius < 0 {
            -1
        } else {
            radius as i64
        };
        let x0: i64 = if cx as i64 - r < 0 {
            0
        } else {
            cx as i64 - r
        };
        let x1: i64 = if cx as i64 + r > width - 1 {
            width - 1
        } else {
            cx as i64 + r
        };
        let y0: i64 = if cy as i64 - r < 0 {
            0
        } else {
            cy as i64 - r
        };
        let y1: i64 = if cy as i64 + r > height - 1 {
            height - 1
        } else {
            cy as i64 + r
        };
        let mut y: i64 = y0;
        while y <= y1
            invariant
                self.wf(),
                start.wf(),
                self@.frame == old(self)@.frame,
                self@.board.width() == start.width() == width,
                self@.board.height() == start.height() == height,
                0 <= x0,
                x1 < width,
                0 <= y0 <= y,
                y1 < height,
                y <= y1 + 1 || y == y0,
                forall|i: int, j: int|
                    #![trigger self@.board.cells[j][i]]
                    start.inside(i, j) ==> self@.board.cells[j][i] == (if walked(
                        i,
                        j,
                        x0 as int,
                        y as int,
                        x0 as int,
                        x1 as int,
                        y0 as int,
                        y1 as int,
                    ) {
                        start.stamped_cell(seed, cx as int, cy as int, radius as int, species, i, j)
                    } else {
                        start.cells[j][i]
                    }),
                forall|i: int, j: int|
                    #![trigger self@.board.moved[j][i]]
                    start.inside(i, j) ==> self@.board.moved[j][i] == (if walked(
                        i,
                        j,
                        x0 as int,
                        y as int,
                        x0 as int,
                        x1 as int,
                        y0 as int,
                        y1 as int,
                    ) {
                        start.stamped_mark(cx as int, cy as int, radius as int, species, i, j)
                    } else {
                        start.moved[j][i]
                    }),
            decreases y1 + 1 - y,
        {
            let mut x: i64 = x0;
            while x <= x1
                invariant
                    self.wf(),
                    start.wf(),
                    self@.frame == old(self)@.frame,
                    self@.board.width() == start.width() == width,
                    self@.board.height() == start.height() == height,
                    0 <= x0 <= x,
                    x1 < width,
                    0 <= y0 <= y <= y1,
                    y1 < height,
                    x <= x1 + 1 || x == x0,
                    forall|i: int, j: int|
                        #![trigger self@.board.cells[j][i]]
                        start.inside(i, j) ==> self@.board.cells[j][i] == (if walked(
                            i,
                            j,
                            x as int,
                            y as int,
                            x0 as int,
                            x1 as int,
                            y0 as int,
                            y1 as int,
                        ) {
                            start.stamped_cell(
                                seed,
                                cx as int,
                                cy as int,
                                radius as int,
                                species,
                                i,
                                j,
                            )
                        } else {
                            start.cells[j][i]
                        }),
                    forall|i: int, j: int|
                        #![trigger self@.board.moved[j][i]]
                        start.inside(i, j) ==> self@.board.moved[j][i] == (if walked(
                            i,
                            j,
                            x as int,
                            y as int,
                            x0 as int,
                            x1 as int,
                            y0 as int,
                            y1 as int,
                        ) {
                            start.stamped_mark(cx as int, cy as int, radius as int, species, i, j)
                        } else {
                            start.moved[j][i]
                        }),
                decreases x1 + 1 - x,
            {
                let ghost before = self@.board;
                assert(before.cells[y as int][x as int] == start.cells[y as int][x as int]);
                if within(x - cx as i64, y - cy as i64, radius) {
                    let old_cell = self.get_cell(x as i32, y as i32);
                    if paintable(old_cell.species, species) {
                        let r = noise(seed, x as u32, y as u32);
                        self.put(x as i32, y as i32, fresh(species, r));
                    }
                }
                x = x + 1;
            }
            y = y + 1;
        }
        proof {
            let goal = start.stamp(seed, cx as int, cy as int, radius as int, species);
            assert forall|i: int, j: int| start.inside(i, j) implies self@.board.cells[j][i]
                == goal.cells[j][i] && self@.board.moved[j][i] == goal.moved[j][i] by {
                if in_disc(i - cx, j - cy, radius as int) {
                    lemma_disc_bound(i - cx, j - cy, radius as int);
                }
            }
            assert forall|j: int| 0 <= j < start.height() implies self@.board.cells[j]
                =~= goal.cells[j] && self@.board.moved[j] =~= goal.moved[j] by {
                assert(self@.board.cells[j].len() == self@.board.cells[0].len());
                assert(self@.board.moved[j].len() == self@.board.cells[0].len());
                assert(start.cells[j].len() == start.cells[0].len());
                assert(start.moved[j].len() == start.cells[0].len());
                assert forall|i: int| 0 <= i < start.width() implies self@.board.cells[j][i]
                    == goal.cells[j][i] && self@.board.moved[j][i] == goal.moved[j][i] by {
                    assert(start.inside(i, j));
                }
            }
            assert(self@.board =~~= goal);
        }
    }

    /// Paints with a round brush: every cell within `radius` of `(x, y)`
    /// becomes a fresh particle of `species` with random bytes. Walls stay,
    /// unless the species is `Empty`, which erases everything. Places outside
    /// the grid are skipped, and a negative radius paints nothing. The seed
    /// moves on. With radius zero the brush writes the one cell at `(x, y)`
    /// and no other.
    pub fn paint(&mut self, x: i32, y: i32, radius: i32, species: Species)
        requires
            old(self).wf(),
        ensures
            final(self).wf(),
            final(self)@ == paint(old(self)@, x as int, y as int, radius as int, species),
            old(self)@.board.fits(final(self)@.board),
            radius == 0 ==> final(self)@.board == (if old(self)@.board.inside(x as int, y as int)
                && spec_paintable(old(self)@.board.at(x as int, y as int).species, species) {
                old(self)@.board.put(
                    x as int,
                    y as int,
                    spec_fresh(species, spec_noise(old(self)@.frame.seed, x as int, y as int)),
                )
            } else {
                old(self)@.board
            }),
    {
        proof {
            let b = self@.board;
            lemma_stamp_fits(b, self@.frame.seed, x as int, y as int, radius as int, species);
            if radius == 0 {
                if b.inside(x as int, y as int) && spec_paintable(
                    b.at(x as int, y as int).species,
                    species,
                ) {
                    point_brush_paints_one_cell(b, self@.frame.seed, x as int, y as int, species);
                } else {
                    point_brush_spares(b, self@.frame.seed, x as int, y as int, species);
                }
            }
        }
        let seed = self.seed();
        self.stamp(seed, x, y, radius, species);
        self.reseed(advance(seed));
    }
}

} // verus!
