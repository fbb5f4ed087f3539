//! Walls are indestructible: nothing that happens in a tick changes a wall.

use crate::board::{spec_dx, spec_dy, untouched, Board, Frame};
use crate::laws::shape::{
    lemma_dest_inside, lemma_find, lemma_put_any, lemma_relocate_fits, lemma_slide_vacant,
    lemma_stamp_fits, lemma_turn_fits, lemma_untouched, lemma_wander_lured, tick_keeps_shape,
};
use crate::noise::{spec_noise, spec_pick};
use crate::rules::{
    clone_turn, corrode, dest, lemma_wander_inside, mite_turn, react, rocket_turn, solidify, sow,
    ticket, turn,
};
use crate::species::{Cell, Kind, Species};
use crate::tick::{column, run_row, run_rows, tick, ticks};
use crate::universe::World;
use vstd::prelude::*;

verus! {

/// Whether every wall of `b` is the same wall on `a`.
pub open spec fn walls_stand(b: Board, a: Board) -> bool {
    forall|i: int, j: int|
        b.at(i, j).species == Species::Wall ==> #[trigger] a.at(i, j) == b.at(i, j)
}

/// Sowing into a neighbour of a kind that holds no wall spares the walls.
pub proof fn lemma_sow_spares_walls(
    b: Board,
    x: int,
    y: int,
    kind: Kind,
    species: Species,
    r: u32,
)
    requires
        b.wf(),
        !kind.spec_holds(Species::Wall),
    ensures
        walls_stand(b, sow(b, x, y, kind, species, r)),
{
    let d = b.find(x, y, kind, spec_pick(r));
    lemma_find(b, x, y, kind, spec_pick(r));
    lemma_put_any(b, x + spec_dx(d), y + spec_dy(d));
}

/// The reaction of a particle that is no wall spares the walls.
pub proof fn lemma_react_spares_walls(f: Frame, b: Board, x: int, y: int, r: u32)
    requires
        b.wf(),
        b.at(x, y).species != Species::Wall,
    ensures
        walls_stand(b, react(f, b, x, y, r)),
{
    let c = b.at(x, y);
    lemma_put_any(b, x, y);
    if c.species == Species::Acid {
        let d = b.find(x, y, Kind::Corrodible, 0);
        lemma_find(b, x, y, Kind::Corrodible, 0);
        lemma_put_any(b, x + spec_dx(d), y + spec_dy(d));
        lemma_put_any(b.put(x + spec_dx(d), y + spec_dy(d), Cell::spec_empty()), x, y);
        assert(react(f, b, x, y, r) == corrode(f, b, x, y));
    } else if c.species == Species::Lava {
        let d = b.find(x, y, Kind::Wet, 0);
        lemma_find(b, x, y, Kind::Wet, 0);
        lemma_put_any(b, x + spec_dx(d), y + spec_dy(d));
        lemma_put_any(b.put(x + spec_dx(d), y + spec_dy(d), Cell::spec_empty()), x, y);
        assert(react(f, b, x, y, r) == solidify(b, x, y));
    } else if c.species == Species::Plant {
        lemma_sow_spares_walls(b, x, y, Kind::Vacant, Species::Plant, r);
    } else if c.species == Species::Fungus {
        lemma_sow_spares_walls(b, x, y, Kind::Host, Species::Fungus, r);
    }
}

/// A turn spares the walls.
pub proof fn lemma_turn_spares_walls(f: Frame, b: Board, x: int, y: int)
    requires
        b.wf(),
    ensures
        walls_stand(b, turn(f, b, x, y)),
{
    if b.inside(x, y) && !b.moved[y][x] {
        let c = b.at(x, y);
        let r = spec_noise(f.seed, x, y);
        if c.species == Species::Cloner {
            lemma_put_any(b, x, y);
            lemma_sow_spares_walls(b, x, y, Kind::Vacant, Species::spec_from_code(c.ra), r);
            assert(turn(f, b, x, y) == clone_turn(b, x, y, r));
        } else if c.species == Species::Mite {
            let d = b.find(x, y, Kind::Fodder, spec_pick(r));
            lemma_find(b, x, y, Kind::Fodder, spec_pick(r));
            lemma_put_any(b, x + spec_dx(d), y + spec_dy(d));
            let t = ticket(r, b.lure_below(x, y, 8));
            let w = b.wander(x, y, t, 0);
            lemma_wander_inside(b, x, y, t, 0);
            lemma_wander_lured(b, x, y, t, 0);
            lemma_put_any(b, x + spec_dx(w), y + spec_dy(w));
            lemma_put_any(b.put(x + spec_dx(w), y + spec_dy(w), c), x, y);
            assert(turn(f, b, x, y) == mite_turn(f, b, x, y, r));
        } else if c.species == Species::Rocket {
            let d = c.rb % 8;
            let nx = x + spec_dx(d);
            let ny = y + spec_dy(d);
            let target = b.at(nx, ny).species;
            lemma_put_any(b, nx, ny);
            lemma_put_any(b.put(nx, ny, c), x, y);
            let burst = b.stamp(f.seed, x, y, f.config.blast_radius as int, target);
            lemma_stamp_fits(b, f.seed, x, y, f.config.blast_radius as int, target);
            lemma_put_any(burst, x, y);
            assert forall|i: int, j: int| b.inside(i, j) implies b.cells[j].len()
                == b.cells[0].len() by {}
            assert(turn(f, b, x, y) == rocket_turn(f, b, x, y));
        } else if c.species != Species::Empty && c.species != Species::Wall {
            let to = dest(f, b, x, y);
            lemma_dest_inside(f, b, x, y);
            lemma_slide_vacant(b, x, y, f.lean(), f.config.spread as nat);
            lemma_slide_vacant(b, x, y, -f.lean(), f.config.spread as nat);
            let shifted = b.relocate(x, y, to.0, to.1);
            lemma_relocate_fits(b, x, y, to.0, to.1);
            lemma_put_any(b, to.0, to.1);
            lemma_put_any(b.put(to.0, to.1, c), x, y);
            assert(to == (x, y) || b.at(to.0, to.1).species != Species::Wall);
            assert(shifted.at(to.0, to.1) == c);
            lemma_react_spares_walls(f, shifted, to.0, to.1, r);
            assert(walls_stand(b, shifted));
            assert forall|i: int, j: int|
                b.at(i, j).species == Species::Wall implies #[trigger] turn(
                f,
                b,
                x,
                y,
            ).at(i, j) == b.at(i, j) by {
                assert(shifted.at(i, j) == b.at(i, j));
            }
        }
    }
}

/// The scan of part of a row spares the walls.
pub proof fn lemma_run_row_spares_walls(f: Frame, b: Board, y: int, width: int, n: nat)
    requires
        b.wf(),
    ensures
        b.fits(run_row(f, b, y, width, n)),
        walls_stand(b, run_row(f, b, y, width, n)),
    decreases n,
{
    if n > 0 {
        let before = run_row(f, b, y, width, (n - 1) as nat);
        lemma_run_row_spares_walls(f, b, y, width, (n - 1) as nat);
        lemma_turn_fits(f, before, column(f, width, n - 1), y);
        lemma_turn_spares_walls(f, before, column(f, width, n - 1), y);
        let after = run_row(f, b, y, width, n);
        assert forall|i: int, j: int|
            b.at(i, j).species == Species::Wall implies #[trigger] after.at(
            i,
            j,
        ) == b.at(i, j) by {
            assert(before.at(i, j) == b.at(i, j));
        }
    }
}

/// The scan of some rows spares the walls.
pub proof fn lemma_run_rows_spares_walls(f: Frame, b: Board, m: nat)
    requires
        b.wf(),
    ensures
        b.fits(run_rows(f, b, m)),
        walls_stand(b, run_rows(f, b, m)),
    decreases m,
{
    if m > 0 {
        let before = run_rows(f, b, (m - 1) as nat);
        lemma_run_rows_spares_walls(f, b, (m - 1) as nat);
        lemma_run_row_spares_walls(f, before, b.height() - m, b.width(), b.width() as nat);
        let after = run_rows(f, b, m);
        assert forall|i: int, j: int|
            b.at(i, j).species == Species::Wall implies #[trigger] after.at(
            i,
            j,
        ) == b.at(i, j) by {
            assert(before.at(i, j) == b.at(i, j));
        }
    }
}

/// Walls are indestructible. A cell that is a wall is the same wall, bytes
/// and all, after any number of ticks, whatever the grid holds.
pub proof fn walls_are_indestructible(w: World, n: nat)
    requires
        w.board.wf(),
    ensures
        walls_stand(w.board, ticks(w, n).board),
    decreases n,
{
    if n > 0 {
        let v = ticks(w, (n - 1) as nat);
        walls_are_indestructible(w, (n - 1) as nat);
        tick_keeps_shape(w, (n - 1) as nat);
        lemma_untouched(v.board);
        let start = untouched(v.board.cells);
        lemma_run_rows_spares_walls(v.frame, start, v.board.height() as nat);
        let after = tick(v).board;
        assert forall|i: int, j: int|
            w.board.at(i, j).species == Species::Wall implies #[trigger] after.at(
            i,
            j,
        ) == w.board.at(i, j) by {
            assert(v.board.at(i, j) == w.board.at(i, j));
            assert(start.at(i, j) == v.board.at(i, j));
        }
    }
}

} // verus!
