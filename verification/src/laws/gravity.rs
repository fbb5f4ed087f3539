//! A grain of sand falls until it rests, and then it stays.

use crate::board::{untouched, Board};
use crate::laws::scan::{lemma_tick_single, still};
use crate::laws::shape::{
    lemma_dest_inside, lemma_put, lemma_relocate_fits, lemma_untouched, tick_keeps_shape,
};
use crate::rules::{dest, grain_dest, turn};
use crate::species::{Cell, Species};
use crate::tick::{tick, ticks};
use crate::universe::World;
use vstd::prelude::*;

verus! {

/// Whether the grid holds the cell `c` at `(x, y)` and nothing but empty
/// cells and walls elsewhere.
pub open spec fn sparse(b: Board, x: int, y: int, c: Cell) -> bool {
    &&& b.wf()
    &&& b.inside(x, y)
    &&& b.at(x, y) == c
    &&& forall|i: int, j: int|
        b.inside(i, j) && !(i == x && j == y) ==> (#[trigger] b.at(i, j)).species
            == Species::Empty || b.at(i, j).species == Species::Wall
}

/// Whether the grid holds the cell `c` at `(x, y)` and nothing but empty
/// cells elsewhere.
pub open spec fn alone(b: Board, x: int, y: int, c: Cell) -> bool {
    &&& b.wf()
    &&& b.inside(x, y)
    &&& b.at(x, y) == c
    &&& forall|i: int, j: int|
        b.inside(i, j) && !(i == x && j == y) ==> (#[trigger] b.at(i, j)).species
            == Species::Empty
}

/// Whether the walls of two boards of one size are in the same places.
pub open spec fn same_walls(a: Board, b: Board) -> bool {
    forall|i: int, j: int|
        (#[trigger] a.at(i, j).species == Species::Wall) == (b.at(i, j).species == Species::Wall)
}

/// A grain of sand among walls, in a grid that is empty otherwise, makes the
/// one move of its rule in a tick, straight or diagonally down by one row,
/// or none if all three places are shut. Nothing else changes but the empty
/// cell that it changes places with.
pub proof fn grain_rolls(w: World, x: int, y: int, c: Cell)
    requires
        sparse(w.board, x, y, c),
        c.species == Species::Sand,
    ensures
        tick(w).board.cells == w.board.relocate(
            x,
            y,
            grain_dest(w.frame, w.board, x, y).0,
            grain_dest(w.frame, w.board, x, y).1,
        ).cells,
        sparse(
            tick(w).board,
            grain_dest(w.frame, w.board, x, y).0,
            grain_dest(w.frame, w.board, x, y).1,
            c,
        ),
        same_walls(tick(w).board, w.board),
        grain_dest(w.frame, w.board, x, y) == (x, y) || (grain_dest(w.frame, w.board, x, y).1 == y
            + 1 && w.board.vacant(
            grain_dest(w.frame, w.board, x, y).0,
            grain_dest(w.frame, w.board, x, y).1,
        )),
{
    let f = w.frame;
    let b = untouched(w.board.cells);
    lemma_untouched(w.board);
    let after = turn(f, b, x, y);
    assert(b.at(x, y) == w.board.at(x, y));
    assert forall|i: int, j: int| b.inside(i, j) && !(i == x && j == y) implies (#[trigger] b.at(
        i,
        j,
    )).species == Species::Empty || b.at(i, j).species == Species::Wall by {
        assert(b.at(i, j) == w.board.at(i, j));
    }
    let to = dest(f, b, x, y);
    assert(to == grain_dest(w.frame, w.board, x, y));
    lemma_dest_inside(f, b, x, y);
    if to != (x, y) {
        assert(b.at(to.0, to.1).species == Species::Empty || b.at(to.0, to.1).species
            == Species::Wall);
    }
    lemma_put(b, to.0, to.1, b.at(x, y));
    lemma_put(b.put(to.0, to.1, b.at(x, y)), x, y, b.at(to.0, to.1));
    lemma_put(w.board, to.0, to.1, b.at(x, y));
    lemma_put(w.board.put(to.0, to.1, b.at(x, y)), x, y, b.at(to.0, to.1));
    lemma_relocate_fits(b, x, y, to.0, to.1);
    assert(after == b.relocate(x, y, to.0, to.1));
    assert(after.cells == w.board.relocate(x, y, to.0, to.1).cells);
    assert forall|i: int, j: int| !(i == x && j == y) implies #[trigger] still(f, b, i, j) by {
        if b.inside(i, j) {
            assert(b.at(i, j).species == Species::Empty || b.at(i, j).species == Species::Wall);
        }
    }
    assert forall|i: int, j: int| !(i == x && j == y) implies #[trigger] still(f, after, i, j) by {
        if after.inside(i, j) {
            if i == to.0 && j == to.1 {
                assert(after.marked(i, j));
            } else {
                assert(b.at(i, j).species == Species::Empty || b.at(i, j).species
                    == Species::Wall);
                assert(after.at(i, j) == b.at(i, j));
            }
        }
    }
    lemma_tick_single(w, x, y);
    assert forall|i: int, j: int|
        after.inside(i, j) && !(i == to.0 && j == to.1) implies (#[trigger] after.at(
        i,
        j,
    )).species == Species::Empty || after.at(i, j).species == Species::Wall by {
        if i == x && j == y {
        } else {
            assert(b.at(i, j).species == Species::Empty || b.at(i, j).species == Species::Wall);
        }
    }
    assert forall|i: int, j: int|
        (#[trigger] after.at(i, j).species == Species::Wall) == (w.board.at(i, j).species
            == Species::Wall) by {
        assert(b.at(i, j) == w.board.at(i, j));
    }
}

/// The row that a grain in row `y` of an empty grid is in `n` ticks later.
pub open spec fn fallen(height: int, y: int, n: nat) -> int {
    if y + n < height {
        y + n
    } else {
        height - 1
    }
}

/// A grain of sand alone in the grid falls one row in a tick, and stays
/// where it is once it is in the bottom row. Its bytes stay as they are.
pub proof fn sand_falls(w: World, x: int, y: int, c: Cell)
    requires
        alone(w.board, x, y, c),
        c.species == Species::Sand,
    ensures
        alone(tick(w).board, x, fallen(w.board.height(), y, 1), c),
{
    grain_rolls(w, x, y, c);
    let to = grain_dest(w.frame, w.board, x, y);
    if y + 1 < w.board.height() {
        assert(w.board.at(x, y + 1).species == Species::Empty);
    }
    let after = tick(w).board;
    assert forall|i: int, j: int|
        after.inside(i, j) && !(i == to.0 && j == to.1) implies (#[trigger] after.at(
        i,
        j,
    )).species == Species::Empty by {
        assert(w.board.at(i, j).species != Species::Wall);
    }
}

/// Gravity converges. A grain of sand alone in the grid is, `n` ticks later,
/// `n` rows further down or in the bottom row, whichever comes first, and
/// still alone: it reaches the bottom row within `height` ticks and stays
/// there ever after.
pub proof fn sand_settles(w: World, x: int, y: int, c: Cell, n: nat)
    requires
        alone(w.board, x, y, c),
        c.species == Species::Sand,
    ensures
        alone(ticks(w, n).board, x, fallen(w.board.height(), y, n), c),
        n >= w.board.height() ==> ticks(w, n).board.at(x, w.board.height() - 1) == c,
    decreases n,
{
    if n > 0 {
        sand_settles(w, x, y, c, (n - 1) as nat);
        let v = ticks(w, (n - 1) as nat);
        tick_keeps_shape(w, (n - 1) as nat);
        sand_falls(v, x, fallen(w.board.height(), y, (n - 1) as nat), c);
    }
}

/// Where a grain of sand that is at `(x, y)` among walls is `n` ticks later.
pub open spec fn rolled(w: World, x: int, y: int, n: nat) -> (int, int)
    decreases n,
{
    if n == 0 {
        (x, y)
    } else {
        let v = ticks(w, (n - 1) as nat);
        let p = rolled(w, x, y, (n - 1) as nat);
        grain_dest(v.frame, v.board, p.0, p.1)
    }
}

/// A grain of sand among walls is still the one particle `n` ticks later,
/// and as long as it moves it is one row further down with every tick.
pub proof fn lemma_grain_path(w: World, x: int, y: int, c: Cell, n: nat)
    requires
        sparse(w.board, x, y, c),
        c.species == Species::Sand,
    ensures
        sparse(ticks(w, n).board, rolled(w, x, y, n).0, rolled(w, x, y, n).1, c),
        w.board.fits(ticks(w, n).board),
        same_walls(ticks(w, n).board, w.board),
        rolled(w, x, y, n + 1) != rolled(w, x, y, n) ==> rolled(w, x, y, n).1 == y + n,
        rolled(w, x, y, n + 1) == rolled(w, x, y, n) ==> ticks(w, n + 1).board.cells == ticks(
            w,
            n,
        ).board.cells,
        n > 0 && rolled(w, x, y, n) == rolled(w, x, y, (n - 1) as nat) ==> rolled(w, x, y, n + 1)
            == rolled(w, x, y, n),
    decreases n,
{
    tick_keeps_shape(w, n);
    if n > 0 {
        lemma_grain_path(w, x, y, c, (n - 1) as nat);
        let u = ticks(w, (n - 1) as nat);
        let p = rolled(w, x, y, (n - 1) as nat);
        grain_rolls(u, p.0, p.1, c);
    }
    let v = ticks(w, n);
    let q = rolled(w, x, y, n);
    grain_rolls(v, q.0, q.1, c);
    let to = rolled(w, x, y, n + 1);
    assert(to == grain_dest(v.frame, v.board, q.0, q.1));
    if to == q {
        assert(v.board.relocate(q.0, q.1, to.0, to.1) == v.board);
    }
    if n > 0 {
        let u = ticks(w, (n - 1) as nat);
        let p = rolled(w, x, y, (n - 1) as nat);
        if q == p {
            assert(v.board.cells == u.board.cells);
            assert(v.board.at(q.0, q.1 + 1) == u.board.at(q.0, q.1 + 1));
            assert(v.board.at(q.0 + 1, q.1 + 1) == u.board.at(q.0 + 1, q.1 + 1));
            assert(v.board.at(q.0 - 1, q.1 + 1) == u.board.at(q.0 - 1, q.1 + 1));
            assert(v.board.inside(q.0, q.1 + 1) == u.board.inside(q.0, q.1 + 1));
            assert(v.board.inside(q.0 + 1, q.1 + 1) == u.board.inside(q.0 + 1, q.1 + 1));
            assert(v.board.inside(q.0 - 1, q.1 + 1) == u.board.inside(q.0 - 1, q.1 + 1));
            assert(grain_dest(u.frame, u.board, p.0, p.1) == p);
            assert(to == q);
        }
    }
}

/// Gravity converges among walls too. A grain of sand in a grid of walls
/// and empty cells comes to rest within `height` ticks, on the bottom row
/// or on walls that shut its way down, and from then on the grid does not
/// change any more.
pub proof fn grain_rests(w: World, x: int, y: int, c: Cell, n: nat)
    requires
        sparse(w.board, x, y, c),
        c.species == Species::Sand,
        n >= w.board.height(),
    ensures
        sparse(ticks(w, n).board, rolled(w, x, y, n).0, rolled(w, x, y, n).1, c),
        rolled(w, x, y, n + 1) == rolled(w, x, y, n),
        ticks(w, n + 1).board.cells == ticks(w, n).board.cells,
{
    lemma_grain_path(w, x, y, c, n);
    tick_keeps_shape(w, n);
}

} // verus!
