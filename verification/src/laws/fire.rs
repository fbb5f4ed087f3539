//! Fire goes out: by itself when nothing feeds it, with time when
//! something does, and at once under water.

use crate::board::{spec_dx, spec_dy, untouched, Board, Frame};
use crate::laws::gravity::alone;
use crate::laws::scan::{lemma_column_mirror, lemma_tick_single, passed, still};
use crate::laws::shape::{
    lemma_dest_inside, lemma_find, lemma_put, lemma_put_any, lemma_slide_vacant, lemma_untouched,
    lemma_wander_lured, tick_keeps_shape,
};
use crate::noise::{spec_noise, spec_pick};
use crate::rules::{burnt, dest, lemma_wander_inside, mite_turn, react, ticket, turn};
use crate::species::{Cell, Kind, Species};
use crate::tick::{column, run_row, run_rows, tick, ticks};
use crate::universe::World;
use vstd::prelude::*;

verus! {

/// A fire alone in the grid is gone after one tick, whatever its lifetime:
/// nothing is there for it to feed on. Its place is empty, or holds the smoke
/// that a marked fire leaves, and the rest of the grid is still empty.
pub proof fn lone_fire_dies(w: World, x: int, y: int, c: Cell)
    requires
        alone(w.board, x, y, c),
        c.species == Species::Fire,
    ensures
        alone(
            tick(w).board,
            x,
            y,
            burnt(c, spec_noise(w.frame.seed, x, y)),
        ),
        tick(w).board.at(x, y).species != Species::Fire,
        c.rb == 0 ==> tick(w).board.at(x, y) == Cell::spec_empty(),
{
    let f = w.frame;
    let b = untouched(w.board.cells);
    lemma_untouched(w.board);
    let after = turn(f, b, x, y);
    let r = spec_noise(f.seed, x, y);
    assert(b.at(x, y) == w.board.at(x, y));
    assert forall|i: int, j: int| b.inside(i, j) && !(i == x && j == y) implies (#[trigger] b.at(
        i,
        j,
    )).species == Species::Empty by {
        assert(b.at(i, j) == w.board.at(i, j));
    }
    lemma_find(b, x, y, Kind::Wet, 0);
    lemma_find(b, x, y, Kind::Fuel, 0);
    if b.near(x, y, Kind::Wet) {
        let d = b.find(x, y, Kind::Wet, 0);
        assert(b.at(x + spec_dx(d), y + spec_dy(d)).species == Species::Empty);
    }
    if b.near(x, y, Kind::Fuel) {
        let d = b.find(x, y, Kind::Fuel, 0);
        assert(b.at(x + spec_dx(d), y + spec_dy(d)).species == Species::Empty);
    }
    let left = burnt(c, r);
    assert(after == b.put(x, y, left));
    lemma_put(b, x, y, left);
    assert forall|i: int, j: int| !(i == x && j == y) implies #[trigger] still(f, b, i, j) by {
        if b.inside(i, j) {
            assert(b.at(i, j).species == Species::Empty);
        }
    }
    assert forall|i: int, j: int| !(i == x && j == y) implies #[trigger] still(f, after, i, j) by {
        if after.inside(i, j) {
            assert(b.at(i, j).species == Species::Empty);
            assert(after.at(i, j) == b.at(i, j));
        }
    }
    lemma_tick_single(w, x, y);
    assert forall|i: int, j: int|
        after.inside(i, j) && !(i == x && j == y) implies (#[trigger] after.at(i, j)).species
        == Species::Empty by {
        assert(b.at(i, j).species == Species::Empty);
    }
}

/// The species of a plain grid: everything but what flows and burns (gas,
/// oil, dust), what eats water or fire (lava, acid) and what copies (cloner,
/// rocket).
pub open spec fn plain_species(s: Species) -> bool {
    s == Species::Empty || s == Species::Wall || s == Species::Sand || s == Species::Water || s
        == Species::Stone || s == Species::Ice || s == Species::Wood || s == Species::Plant || s
        == Species::Fungus || s == Species::Seed || s == Species::Fire || s == Species::Mite
}

/// Whether every cell of the board is of a plain species, and no fire is
/// marked to leave smoke.
pub open spec fn plain(b: Board) -> bool {
    forall|x: int, y: int|
        b.inside(x, y) ==> plain_species((#[trigger] b.at(x, y)).species) && (b.at(x, y).species
            == Species::Fire ==> b.at(x, y).rb == 0)
}

/// Whether the board holds nothing that a fire of a plain grid could feed
/// on, now or later in the tick: no wood, no plant, and no seed that could
/// grow into one.
pub open spec fn fuelless(b: Board) -> bool {
    forall|x: int, y: int|
        b.inside(x, y) ==> (#[trigger] b.at(x, y)).species != Species::Wood && b.at(x, y).species
            != Species::Plant && b.at(x, y).species != Species::Seed
}

/// How many ticks a fire with this cell still burns, at most: its lifetime
/// byte, or the longest lifetime if that is less.
pub open spec fn life(f: Frame, c: Cell) -> int {
    if c.ra < f.config.fire_lifetime {
        c.ra as int
    } else {
        f.config.fire_lifetime as int
    }
}

/// What the turn of `(x, y)` on a plain board `b` may do, `a` being the
/// board after it: the board stays plain, and without fuel if it was, marks
/// stay, a fire elsewhere is not touched, no fire starts elsewhere, other
/// water in the same row and on the rows above is not touched, and a fire
/// whose turn it is is marked and has gone out or burnt down by one, and has
/// gone out if water was next to it or no fuel was.
pub open spec fn gentle(f: Frame, b: Board, a: Board, x: int, y: int) -> bool {
    &&& b.fits(a)
    &&& plain(a)
    &&& fuelless(b) ==> fuelless(a)
    &&& forall|i: int, j: int| b.marked(i, j) ==> #[trigger] a.marked(i, j)
    &&& forall|i: int, j: int|
        !(i == x && j == y) && b.at(i, j).species == Species::Fire ==> #[trigger] a.at(i, j)
            == b.at(i, j) && a.marked(i, j) == b.marked(i, j)
    &&& forall|i: int, j: int|
        !(i == x && j == y) && b.at(i, j).species != Species::Fire ==> (#[trigger] a.at(
            i,
            j,
        )).species != Species::Fire
    &&& forall|i: int, j: int|
        !(i == x && j == y) && j <= y && b.at(i, j).species == Species::Water ==> #[trigger] a.at(
            i,
            j,
        ) == b.at(i, j)
    &&& b.inside(x, y) && !b.marked(x, y) && b.at(x, y).species == Species::Fire ==> {
        &&& a.marked(x, y)
        &&& a.at(x, y).species == Species::Fire ==> 1 <= life(f, a.at(x, y)) < life(f, b.at(x, y))
        &&& b.near(x, y, Kind::Wet) || !b.near(x, y, Kind::Fuel) ==> a.at(x, y).species
            != Species::Fire
    }
}

/// On a plain board, the turn of a cell that neither moves nor sows is
/// gentle.
pub proof fn lemma_turn_plain_static(f: Frame, b: Board, x: int, y: int)
    requires
        b.wf(),
        plain(b),
        b.inside(x, y),
        !b.marked(x, y),
        b.at(x, y).species == Species::Stone || b.at(x, y).species == Species::Ice || b.at(
            x,
            y,
        ).species == Species::Wood || b.at(x, y).species == Species::Seed || b.at(x, y).species
            == Species::Fire,
    ensures
        gentle(f, b, turn(f, b, x, y), x, y),
{
    let a = turn(f, b, x, y);
    let c = b.at(x, y);
    let r = spec_noise(f.seed, x, y);
    assert(plain_species(c.species) && (c.species == Species::Fire ==> c.rb == 0));
    lemma_put_any(b, x, y);
    assert(dest(f, b, x, y) == (x, y));
    assert(a == react(f, b, x, y, r));
    assert forall|i: int, j: int| a.inside(i, j) implies plain_species(
        (#[trigger] a.at(i, j)).species,
    ) && (a.at(i, j).species == Species::Fire ==> a.at(i, j).rb == 0) by {
        assert(plain_species(b.at(i, j).species));
    }
    if fuelless(b) {
        assert forall|i: int, j: int| a.inside(i, j) implies (#[trigger] a.at(i, j)).species
            != Species::Wood && a.at(i, j).species != Species::Plant && a.at(i, j).species
            != Species::Seed by {
            assert(b.at(i, j).species != Species::Wood);
            assert(b.at(x, y).species != Species::Wood);
        }
    }
}

/// On a plain board, the turn of a plant or a fungus is gentle.
pub proof fn lemma_turn_plain_sow(f: Frame, b: Board, x: int, y: int)
    requires
        b.wf(),
        plain(b),
        b.inside(x, y),
        !b.marked(x, y),
        b.at(x, y).species == Species::Plant || b.at(x, y).species == Species::Fungus,
    ensures
        gentle(f, b, turn(f, b, x, y), x, y),
{
    let a = turn(f, b, x, y);
    let c = b.at(x, y);
    let r = spec_noise(f.seed, x, y);
    let kind = if c.species == Species::Plant {
        Kind::Vacant
    } else {
        Kind::Host
    };
    let d = b.find(x, y, kind, spec_pick(r));
    lemma_find(b, x, y, kind, spec_pick(r));
    lemma_put_any(b, x, y);
    lemma_put_any(b, x + spec_dx(d), y + spec_dy(d));
    assert(dest(f, b, x, y) == (x, y));
    assert(a == react(f, b, x, y, r));
    assert forall|i: int, j: int| a.inside(i, j) implies plain_species(
        (#[trigger] a.at(i, j)).species,
    ) && (a.at(i, j).species == Species::Fire ==> a.at(i, j).rb == 0) by {
        assert(plain_species(b.at(i, j).species));
    }
    if fuelless(b) {
        assert forall|i: int, j: int| a.inside(i, j) implies (#[trigger] a.at(i, j)).species
            != Species::Wood && a.at(i, j).species != Species::Plant && a.at(i, j).species
            != Species::Seed by {
            assert(b.at(i, j).species != Species::Wood);
            assert(b.at(x, y).species != Species::Wood);
        }
    }
}

/// On a plain board, the turn of a grain of sand or of water is gentle.
pub proof fn lemma_turn_plain_mover(f: Frame, b: Board, x: int, y: int)
    requires
        b.wf(),
        plain(b),
        b.inside(x, y),
        !b.marked(x, y),
        b.at(x, y).species == Species::Sand || b.at(x, y).species == Species::Water,
    ensures
        gentle(f, b, turn(f, b, x, y), x, y),
{
    let a = turn(f, b, x, y);
    let c = b.at(x, y);
    let r = spec_noise(f.seed, x, y);
    let to = dest(f, b, x, y);
    lemma_dest_inside(f, b, x, y);
    lemma_slide_vacant(b, x, y, f.lean(), f.config.spread as nat);
    lemma_slide_vacant(b, x, y, -f.lean(), f.config.spread as nat);
    let there = b.at(to.0, to.1);
    assert(plain_species(there.species));
    assert(to.1 >= y);
    assert((to.0 == x && to.1 == y) || there.species == Species::Empty || there.species
        == Species::Water);
    let first = b.put(to.0, to.1, c);
    let shifted = b.relocate(x, y, to.0, to.1);
    lemma_put_any(b, to.0, to.1);
    lemma_put_any(first, x, y);
    lemma_put_any(shifted, to.0, to.1);
    assert(shifted.at(to.0, to.1) == c);
    assert(a == react(f, shifted, to.0, to.1, r));
    assert forall|i: int, j: int| a.inside(i, j) implies plain_species(
        (#[trigger] a.at(i, j)).species,
    ) && (a.at(i, j).species == Species::Fire ==> a.at(i, j).rb == 0) by {
        assert(plain_species(b.at(i, j).species));
    }
    if fuelless(b) {
        assert forall|i: int, j: int| a.inside(i, j) implies (#[trigger] a.at(i, j)).species
            != Species::Wood && a.at(i, j).species != Species::Plant && a.at(i, j).species
            != Species::Seed by {
            assert(b.at(i, j).species != Species::Wood);
            assert(b.at(x, y).species != Species::Wood);
        }
    }
}

/// On a plain board, the turn of a mite is gentle.
pub proof fn lemma_turn_plain_mite(f: Frame, b: Board, x: int, y: int)
    requires
        b.wf(),
        plain(b),
        b.inside(x, y),
        !b.marked(x, y),
        b.at(x, y).species == Species::Mite,
    ensures
        gentle(f, b, turn(f, b, x, y), x, y),
{
    let a = turn(f, b, x, y);
    let c = b.at(x, y);
    let r = spec_noise(f.seed, x, y);
    let d = b.find(x, y, Kind::Fodder, spec_pick(r));
    lemma_find(b, x, y, Kind::Fodder, spec_pick(r));
    lemma_put_any(b, x + spec_dx(d), y + spec_dy(d));
    let total = b.lure_below(x, y, 8);
    let w = b.wander(x, y, ticket(r, total), 0);
    lemma_wander_inside(b, x, y, ticket(r, total), 0);
    lemma_wander_lured(b, x, y, ticket(r, total), 0);
    let nx = x + spec_dx(w);
    let ny = y + spec_dy(w);
    let first = b.put(nx, ny, c);
    lemma_put_any(b, nx, ny);
    lemma_put_any(first, x, y);
    assert(a == mite_turn(f, b, x, y, r));
    if w < 8 {
        assert(plain_species(b.at(nx, ny).species));
        assert(b.at(nx, ny).species == Species::Empty || b.at(nx, ny).species == Species::Ice);
    }
    assert forall|i: int, j: int| a.inside(i, j) implies plain_species(
        (#[trigger] a.at(i, j)).species,
    ) && (a.at(i, j).species == Species::Fire ==> a.at(i, j).rb == 0) by {
        assert(plain_species(b.at(i, j).species));
    }
    if fuelless(b) {
        assert forall|i: int, j: int| a.inside(i, j) implies (#[trigger] a.at(i, j)).species
            != Species::Wood && a.at(i, j).species != Species::Plant && a.at(i, j).species
            != Species::Seed by {
            assert(b.at(i, j).species != Species::Wood);
            assert(b.at(x, y).species != Species::Wood);
        }
    }
}

/// On a plain board every turn is gentle.
pub proof fn lemma_turn_plain(f: Frame, b: Board, x: int, y: int)
    requires
        b.wf(),
        plain(b),
    ensures
        gentle(f, b, turn(f, b, x, y), x, y),
{
    if b.inside(x, y) && !b.moved[y][x] {
        let s = b.at(x, y).species;
        assert(plain_species(s));
        if s == Species::Sand || s == Species::Water {
            lemma_turn_plain_mover(f, b, x, y);
        } else if s == Species::Mite {
            lemma_turn_plain_mite(f, b, x, y);
        } else if s == Species::Plant || s == Species::Fungus {
            lemma_turn_plain_sow(f, b, x, y);
        } else if s != Species::Empty && s != Species::Wall {
            lemma_turn_plain_static(f, b, x, y);
        }
    }
}

/// Whether the cell at `(x, y)` has water next to it at `(wx, wy)`, a place
/// that the scan reaches after `(x, y)`: on the row above, or in the same
/// row on the side that the scan moves to.
pub open spec fn doused(f: Frame, b: Board, x: int, y: int, wx: int, wy: int) -> bool {
    &&& b.inside(wx, wy)
    &&& b.at(wx, wy).species == Species::Water
    &&& (wy == y - 1 && x - 1 <= wx <= x + 1) || (wy == y && wx == x + f.lean())
}

/// What holds of the fire that was at `(x, y)` on the plain board `start`
/// while a tick is under way and the board has become `b`. Before its turn
/// (`done` is false) the fire is as it was and unmarked, and the water at
/// `(wx, wy)`, if it was there to douse the fire, is still there. After its
/// turn the fire is marked, it has gone out or burnt down, and it has gone
/// out if there was that water or if the board was without fuel.
pub open spec fn fire_watch(
    f: Frame,
    start: Board,
    b: Board,
    x: int,
    y: int,
    wx: int,
    wy: int,
    done: bool,
) -> bool {
    &&& start.fits(b)
    &&& plain(b)
    &&& fuelless(start) ==> fuelless(b)
    &&& !done ==> {
        &&& b.at(x, y) == start.at(x, y)
        &&& !b.marked(x, y)
        &&& doused(f, start, x, y, wx, wy) ==> doused(f, b, x, y, wx, wy)
    }
    &&& done ==> {
        &&& b.marked(x, y)
        &&& b.at(x, y).species == Species::Fire ==> 1 <= life(f, b.at(x, y)) < life(
            f,
            start.at(x, y),
        )
        &&& doused(f, start, x, y, wx, wy) || fuelless(start) ==> b.at(x, y).species
            != Species::Fire
    }
}

/// A turn on a plain board keeps the watch on a fire.
pub proof fn lemma_turn_fire_watch(
    f: Frame,
    start: Board,
    b: Board,
    x: int,
    y: int,
    wx: int,
    wy: int,
    row: int,
    n: int,
)
    requires
        start.wf(),
        start.inside(x, y),
        start.at(x, y).species == Species::Fire,
        0 <= n < start.width(),
        fire_watch(f, start, b, x, y, wx, wy, passed(f, start.width(), row, n, x, y)),
    ensures
        fire_watch(
            f,
            start,
            turn(f, b, column(f, start.width(), n), row),
            x,
            y,
            wx,
            wy,
            passed(f, start.width(), row, n + 1, x, y),
        ),
{
    let width = start.width();
    let i = column(f, width, n);
    let a = turn(f, b, i, row);
    lemma_turn_plain(f, b, i, row);
    lemma_column_mirror(f, width, n);
    lemma_column_mirror(f, width, x);
    if i == x && row == y {
        if fuelless(start) {
            lemma_find(b, x, y, Kind::Fuel, 0);
            let d = b.find(x, y, Kind::Fuel, 0);
            if d < 8 {
                assert(plain_species(b.at(x + spec_dx(d), y + spec_dy(d)).species));
            }
        }
        if doused(f, start, x, y, wx, wy) {
            lemma_find(b, x, y, Kind::Wet, 0);
            let d: u8 = if wy == y {
                if wx == x + 1 {
                    2
                } else {
                    6
                }
            } else if wx == x - 1 {
                7
            } else if wx == x {
                0
            } else {
                1
            };
            assert(b.hit(x, y, Kind::Wet, d));
        }
    } else if !passed(f, width, row, n, x, y) {
        assert(a.at(x, y) == b.at(x, y));
        assert(row >= y);
        if doused(f, start, x, y, wx, wy) {
            assert(!(i == wx && row == wy));
            assert(a.at(wx, wy) == b.at(wx, wy));
        }
    } else {
        assert(a.marked(x, y));
        if b.at(x, y).species == Species::Fire {
            assert(a.at(x, y) == b.at(x, y));
        } else {
            assert(a.at(x, y).species != Species::Fire);
        }
    }
}

/// The scan of part of a row of a plain board keeps the watch on a fire.
pub proof fn lemma_run_row_fire_watch(
    f: Frame,
    start: Board,
    b: Board,
    x: int,
    y: int,
    wx: int,
    wy: int,
    row: int,
    n: nat,
)
    requires
        start.wf(),
        start.inside(x, y),
        start.at(x, y).species == Species::Fire,
        n <= start.width(),
        fire_watch(f, start, b, x, y, wx, wy, passed(f, start.width(), row, 0, x, y)),
    ensures
        fire_watch(
            f,
            start,
            run_row(f, b, row, start.width(), n),
            x,
            y,
            wx,
            wy,
            passed(f, start.width(), row, n as int, x, y),
        ),
    decreases n,
{
    if n > 0 {
        lemma_run_row_fire_watch(f, start, b, x, y, wx, wy, row, (n - 1) as nat);
        lemma_turn_fire_watch(
            f,
            start,
            run_row(f, b, row, start.width(), (n - 1) as nat),
            x,
            y,
            wx,
            wy,
            row,
            n - 1,
        );
    }
}

/// The scan of some rows of a plain board keeps the watch on a fire.
pub proof fn lemma_run_rows_fire_watch(
    f: Frame,
    start: Board,
    x: int,
    y: int,
    wx: int,
    wy: int,
    m: nat,
)
    requires
        start.wf(),
        plain(start),
        start.inside(x, y),
        start.at(x, y).species == Species::Fire,
        !start.marked(x, y),
        m <= start.height(),
    ensures
        fire_watch(f, start, run_rows(f, start, m), x, y, wx, wy, y >= start.height() - m),
    decreases m,
{
    if m > 0 {
        lemma_run_rows_fire_watch(f, start, x, y, wx, wy, (m - 1) as nat);
        let row = start.height() - m;
        lemma_column_mirror(f, start.width(), x);
        lemma_run_row_fire_watch(
            f,
            start,
            run_rows(f, start, (m - 1) as nat),
            x,
            y,
            wx,
            wy,
            row,
            start.width() as nat,
        );
    }
}

/// A board whose marks are cleared is plain if it was.
pub proof fn lemma_untouched_plain(b: Board)
    requires
        b.wf(),
        plain(b),
    ensures
        plain(untouched(b.cells)),
{
    lemma_untouched(b);
    let start = untouched(b.cells);
    assert forall|x: int, y: int| start.inside(x, y) implies plain_species(
        (#[trigger] start.at(x, y)).species,
    ) && (start.at(x, y).species == Species::Fire ==> start.at(x, y).rb == 0) by {
        assert(start.at(x, y) == b.at(x, y));
    }
}

/// Fire burns down. In a plain grid, one without gas, oil, dust, lava, acid,
/// cloner and rocket and without fire that leaves smoke, every fire
/// has after one tick gone out or has a lifetime shorter than before, where
/// a lifetime byte above the longest lifetime counts as the longest: no
/// fire outlives that many ticks.
pub proof fn fire_burns_down(w: World, x: int, y: int)
    requires
        w.board.wf(),
        plain(w.board),
        w.board.inside(x, y),
        w.board.at(x, y).species == Species::Fire,
    ensures
        plain(tick(w).board),
        tick(w).board.at(x, y).species == Species::Fire ==> 1 <= life(
            tick(w).frame,
            tick(w).board.at(x, y),
        ) < life(w.frame, w.board.at(x, y)),
{
    lemma_untouched(w.board);
    lemma_untouched_plain(w.board);
    let start = untouched(w.board.cells);
    assert(start.at(x, y) == w.board.at(x, y));
    lemma_run_rows_fire_watch(w.frame, start, x, y, x, y, start.height() as nat);
}

/// Fire needs fuel. In a plain grid without wood, plant and seed, no fire
/// outlives the tick, whatever its lifetime; so a fire with nothing but
/// water, sand and stone around it is out after one tick.
pub proof fn unfed_fire_dies(w: World, x: int, y: int)
    requires
        w.board.wf(),
        plain(w.board),
        fuelless(w.board),
        w.board.inside(x, y),
        w.board.at(x, y).species == Species::Fire,
    ensures
        tick(w).board.at(x, y).species != Species::Fire,
        plain(tick(w).board),
        fuelless(tick(w).board),
{
    lemma_untouched(w.board);
    lemma_untouched_plain(w.board);
    let start = untouched(w.board.cells);
    assert(start.at(x, y) == w.board.at(x, y));
    assert forall|i: int, j: int| start.inside(i, j) implies (#[trigger] start.at(i, j)).species
        != Species::Wood && start.at(i, j).species != Species::Plant && start.at(i, j).species
        != Species::Seed by {
        assert(start.at(i, j) == w.board.at(i, j));
    }
    lemma_run_rows_fire_watch(w.frame, start, x, y, x, y, start.height() as nat);
}

/// Ticking once and then `n` times is ticking `n + 1` times.
pub proof fn lemma_ticks_shift(w: World, n: nat)
    ensures
        ticks(tick(w), n) == ticks(w, n + 1),
    decreases n,
{
    if n > 0 {
        lemma_ticks_shift(w, (n - 1) as nat);
    } else {
        assert(ticks(w, 1) == tick(ticks(w, 0)));
    }
}

/// Fire never persists. In a plain grid, the place of a fire holds no fire
/// at the end of some tick before its lifetime is over: the tick `n` that
/// this proof returns is at most the lifetime of the fire, or the first tick
/// for a fire whose lifetime is spent. The lifetime of a fire is never more
/// than the longest lifetime of the constants.
pub proof fn fire_goes_out(w: World, x: int, y: int) -> (n: nat)
    requires
        w.board.wf(),
        plain(w.board),
        w.board.inside(x, y),
        w.board.at(x, y).species == Species::Fire,
    ensures
        1 <= n,
        n <= 1 || n <= life(w.frame, w.board.at(x, y)),
        life(w.frame, w.board.at(x, y)) <= w.frame.config.fire_lifetime,
        ticks(w, n).board.at(x, y).species != Species::Fire,
    decreases life(w.frame, w.board.at(x, y)),
{
    fire_burns_down(w, x, y);
    let v = tick(w);
    assert(ticks(w, 1) == tick(ticks(w, 0)));
    if v.board.at(x, y).species != Species::Fire {
        1
    } else {
        tick_keeps_shape(w, 1);
        let m = fire_goes_out(v, x, y);
        lemma_ticks_shift(w, m);
        m + 1
    }
}

/// Water puts fire out. In a plain grid, a fire with water next to it on the
/// row above, or in its own row on the side that the scan of this tick moves
/// to, is no fire after the tick. (Water that has its turn before the fire
/// may have flowed away by the time the fire has its turn.)
pub proof fn water_puts_out_fire(w: World, x: int, y: int, wx: int, wy: int)
    requires
        w.board.wf(),
        plain(w.board),
        w.board.inside(x, y),
        w.board.at(x, y).species == Species::Fire,
        doused(w.frame, w.board, x, y, wx, wy),
    ensures
        tick(w).board.at(x, y).species != Species::Fire,
{
    lemma_untouched(w.board);
    lemma_untouched_plain(w.board);
    let start = untouched(w.board.cells);
    assert(start.at(x, y) == w.board.at(x, y));
    assert(start.at(wx, wy) == w.board.at(wx, wy));
    lemma_run_rows_fire_watch(w.frame, start, x, y, wx, wy, start.height() as nat);
}

/// A fire whose turn has come goes out if water is next to it, whatever else
/// is on the board.
pub proof fn doused_fire_goes_out(f: Frame, b: Board, x: int, y: int)
    requires
        b.wf(),
        b.inside(x, y),
        !b.marked(x, y),
        b.at(x, y).species == Species::Fire,
        b.near(x, y, Kind::Wet),
    ensures
        turn(f, b, x, y) == b.put(x, y, Cell::spec_empty()),
        turn(f, b, x, y).at(x, y) == Cell::spec_empty(),
{
    lemma_put(b, x, y, Cell::spec_empty());
}

} // verus!
