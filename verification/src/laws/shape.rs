//! Every step keeps the board a rectangle of its size, and what the
//! helpers of the rules return lies inside it.

use crate::board::{spec_dx, spec_dy, untouched, Board, Frame};
use crate::noise::{spec_noise, spec_pick};
use crate::paint::spec_fresh;
use crate::rules::{corrode, dest, react, solidify, sow, turn};
use crate::species::{SPECIES_COUNT, Cell, Kind, Species};
use crate::tick::{column, run_row, run_rows, tick, ticks};
use crate::universe::World;
use vstd::prelude::*;

verus! {

/// Writing a cell keeps the size of the board, changes the place written and
/// no other, and marks that place and no other.
pub proof fn lemma_put(b: Board, x: int, y: int, c: Cell)
    requires
        b.wf(),
    ensures
        b.fits(b.put(x, y, c)),
        forall|i: int, j: int|
            #[trigger] b.put(x, y, c).at(i, j) == (if i == x && j == y && b.inside(x, y) {
                c
            } else {
                b.at(i, j)
            }),
        forall|i: int, j: int|
            #[trigger] b.put(x, y, c).marked(i, j) == ((i == x && j == y && b.inside(x, y))
                || b.marked(i, j)),
{
    if b.inside(x, y) {
        let p = b.put(x, y, c);
        assert(b.cells[y].len() == b.cells[0].len());
        assert(b.moved[y].len() == b.cells[0].len());
        assert forall|j: int| 0 <= j < p.cells.len() implies (#[trigger] p.cells[j]).len()
            == p.cells[0].len() by {
            assert(b.cells[j].len() == b.cells[0].len());
        }
        assert forall|j: int| 0 <= j < p.moved.len() implies (#[trigger] p.moved[j]).len()
            == p.cells[0].len() by {
            assert(b.moved[j].len() == b.cells[0].len());
        }
    }
}

/// What writing a cell does, for every cell that could be written.
pub proof fn lemma_put_any(b: Board, x: int, y: int)
    requires
        b.wf(),
    ensures
        forall|c: Cell| b.fits(#[trigger] b.put(x, y, c)),
        forall|c: Cell, i: int, j: int|
            #[trigger] b.put(x, y, c).at(i, j) == (if i == x && j == y && b.inside(x, y) {
                c
            } else {
                b.at(i, j)
            }),
        forall|c: Cell, i: int, j: int|
            #[trigger] b.put(x, y, c).marked(i, j) == ((i == x && j == y && b.inside(x, y))
                || b.marked(i, j)),
{
    assert forall|c: Cell| b.fits(#[trigger] b.put(x, y, c)) by {
        lemma_put(b, x, y, c);
    }
    assert forall|c: Cell, i: int, j: int|
        #[trigger] b.put(x, y, c).at(i, j) == (if i == x && j == y && b.inside(x, y) {
            c
        } else {
            b.at(i, j)
        }) by {
        lemma_put(b, x, y, c);
    }
    assert forall|c: Cell, i: int, j: int|
        #[trigger] b.put(x, y, c).marked(i, j) == ((i == x && j == y && b.inside(x, y))
            || b.marked(i, j)) by {
        lemma_put(b, x, y, c);
    }
}

/// Exchanging two cells keeps the size of the board.
pub proof fn lemma_relocate_fits(b: Board, x: int, y: int, nx: int, ny: int)
    requires
        b.wf(),
    ensures
        b.fits(b.relocate(x, y, nx, ny)),
{
    lemma_put(b, nx, ny, b.at(x, y));
    lemma_put(b.put(nx, ny, b.at(x, y)), x, y, b.at(nx, ny));
}

/// A stroke keeps the size of the board.
pub proof fn lemma_stamp_fits(b: Board, seed: u32, cx: int, cy: int, radius: int, species: Species)
    requires
        b.wf(),
    ensures
        b.fits(b.stamp(seed, cx, cy, radius, species)),
{
    let p = b.stamp(seed, cx, cy, radius, species);
    assert(b.cells[0].len() == b.cells[0].len());
    assert forall|j: int| 0 <= j < p.cells.len() implies (#[trigger] p.cells[j]).len()
        == p.cells[0].len() by {
        assert(b.cells[j].len() == b.cells[0].len());
    }
    assert forall|j: int| 0 <= j < p.moved.len() implies (#[trigger] p.moved[j]).len()
        == p.cells[0].len() by {
        assert(b.moved[j].len() == b.cells[0].len());
    }
}

/// What `find` returns: a direction in which there is a neighbour of the
/// kind, or 8 when no direction has one.
pub proof fn lemma_find(b: Board, x: int, y: int, kind: Kind, start: u8)
    ensures
        b.find(x, y, kind, start) <= 8,
        b.find(x, y, kind, start) < 8 ==> b.hit(x, y, kind, b.find(x, y, kind, start)),
        b.find(x, y, kind, start) == 8 ==> forall|d: u8| d < 8 ==> !b.hit(x, y, kind, d),
{
    reveal(Board::find);
    let s = start % 8;
    if b.find(x, y, kind, start) == 8 {
        assert forall|d: u8| d < 8 implies !b.hit(x, y, kind, d) by {
            let k = ((d + 8 - s) % 8) as u8;
            assert(d == ((s + k) % 8) as u8);
        }
    }
}

/// A slide ends inside the grid, in the row where it began.
pub proof fn lemma_slide_inside(b: Board, x: int, y: int, dx: int, reach: nat)
    requires
        b.inside(x, y),
    ensures
        b.inside(b.slide(x, y, dx, reach), y),
    decreases reach,
{
    if reach != 0 && b.vacant(x + dx, y) {
        lemma_slide_inside(b, x + dx, y, dx, (reach - 1) as nat);
    }
}

/// A slide ends where it began or on an empty cell.
pub proof fn lemma_slide_vacant(b: Board, x: int, y: int, dx: int, reach: nat)
    ensures
        b.slide(x, y, dx, reach) == x || b.vacant(b.slide(x, y, dx, reach), y),
    decreases reach,
{
    if reach != 0 && b.vacant(x + dx, y) {
        lemma_slide_vacant(b, x + dx, y, dx, (reach - 1) as nat);
    }
}

/// A particle moves to a place inside the grid.
pub proof fn lemma_dest_inside(f: Frame, b: Board, x: int, y: int)
    requires
        b.inside(x, y),
    ensures
        b.inside(dest(f, b, x, y).0, dest(f, b, x, y).1),
{
    lemma_slide_inside(b, x, y, f.lean(), f.config.spread as nat);
    lemma_slide_inside(b, x, y, -f.lean(), f.config.spread as nat);
}

/// A ticket that falls to a direction falls to one of some weight.
pub proof fn lemma_wander_lured(b: Board, x: int, y: int, t: nat, from: u8)
    ensures
        b.wander(x, y, t, from) < 8 ==> b.lure(x, y, b.wander(x, y, t, from)) > 0,
    decreases 8 - from,
{
    if from < 8 && t >= b.lure(x, y, from) {
        lemma_wander_lured(b, x, y, (t - b.lure(x, y, from)) as nat, (from + 1) as u8);
    }
}

/// Sowing keeps the size of the board.
pub proof fn lemma_sow_fits(b: Board, x: int, y: int, kind: Kind, species: Species, r: u32)
    requires
        b.wf(),
    ensures
        b.fits(sow(b, x, y, kind, species, r)),
{
    let d = b.find(x, y, kind, spec_pick(r));
    lemma_put(b, x + spec_dx(d), y + spec_dy(d), spec_fresh(species, r));
}

/// The rule of acid keeps the size of the board.
pub proof fn lemma_corrode_fits(f: Frame, b: Board, x: int, y: int)
    requires
        b.wf(),
    ensures
        b.fits(corrode(f, b, x, y)),
{
    let d = b.find(x, y, Kind::Corrodible, 0);
    let eaten = b.put(x + spec_dx(d), y + spec_dy(d), Cell::spec_empty());
    lemma_put(b, x + spec_dx(d), y + spec_dy(d), Cell::spec_empty());
    assert forall|k: Cell| b.fits(#[trigger] eaten.put(x, y, k)) by {
        lemma_put(eaten, x, y, k);
    }
}

/// The rule of lava keeps the size of the board.
pub proof fn lemma_solidify_fits(b: Board, x: int, y: int)
    requires
        b.wf(),
    ensures
        b.fits(solidify(b, x, y)),
{
    let d = b.find(x, y, Kind::Wet, 0);
    let dried = b.put(x + spec_dx(d), y + spec_dy(d), Cell::spec_empty());
    lemma_put(b, x + spec_dx(d), y + spec_dy(d), Cell::spec_empty());
    assert forall|k: Cell| b.fits(#[trigger] dried.put(x, y, k)) by {
        lemma_put(dried, x, y, k);
    }
}

/// A reaction keeps the size of the board.
pub proof fn lemma_react_fits(f: Frame, b: Board, x: int, y: int, r: u32)
    requires
        b.wf(),
    ensures
        b.fits(react(f, b, x, y, r)),
{
    assert forall|k: Cell| b.fits(#[trigger] b.put(x, y, k)) by {
        lemma_put(b, x, y, k);
    }
    lemma_corrode_fits(f, b, x, y);
    lemma_solidify_fits(b, x, y);
    lemma_sow_fits(b, x, y, Kind::Vacant, Species::Plant, r);
    lemma_sow_fits(b, x, y, Kind::Host, Species::Fungus, r);
}

/// A turn keeps the size of the board.
pub proof fn lemma_turn_fits(f: Frame, b: Board, x: int, y: int)
    requires
        b.wf(),
    ensures
        b.fits(turn(f, b, x, y)),
{
    assert forall|i: int, j: int, k: Cell| b.fits(#[trigger] b.put(i, j, k)) by {
        lemma_put(b, i, j, k);
    }
    assert forall|i: int, j: int| b.fits(#[trigger] b.relocate(x, y, i, j)) by {
        lemma_relocate_fits(b, x, y, i, j);
    }
    lemma_sow_fits(
        b,
        x,
        y,
        Kind::Vacant,
        Species::spec_from_code(b.at(x, y).ra),
        spec_noise(f.seed, x, y),
    );
    let to = dest(f, b, x, y);
    lemma_react_fits(f, b.relocate(x, y, to.0, to.1), to.0, to.1, spec_noise(f.seed, x, y));
    let d = b.at(x, y).rb % 8;
    let target = b.at(x + spec_dx(d), y + spec_dy(d)).species;
    let burst = b.stamp(f.seed, x, y, f.config.blast_radius as int, target);
    lemma_stamp_fits(b, f.seed, x, y, f.config.blast_radius as int, target);
    lemma_put(burst, x, y, Cell::spec_empty());
}

/// Scanning part of a row keeps the size of the board.
pub proof fn lemma_run_row_fits(f: Frame, b: Board, y: int, width: int, n: nat)
    requires
        b.wf(),
    ensures
        b.fits(run_row(f, b, y, width, n)),
    decreases n,
{
    if n > 0 {
        lemma_run_row_fits(f, b, y, width, (n - 1) as nat);
        lemma_turn_fits(f, run_row(f, b, y, width, (n - 1) as nat), column(f, width, n - 1), y);
    }
}

/// Scanning some rows keeps the size of the board.
pub proof fn lemma_run_rows_fits(f: Frame, b: Board, m: nat)
    requires
        b.wf(),
    ensures
        b.fits(run_rows(f, b, m)),
    decreases m,
{
    if m > 0 {
        lemma_run_rows_fits(f, b, (m - 1) as nat);
        lemma_run_row_fits(
            f,
            run_rows(f, b, (m - 1) as nat),
            b.height() - m,
            b.width(),
            b.width() as nat,
        );
    }
}

/// A board whose marks are cleared is a board of the same size with the same
/// cells.
pub proof fn lemma_untouched(b: Board)
    requires
        b.wf(),
    ensures
        b.fits(untouched(b.cells)),
        untouched(b.cells).cells == b.cells,
        forall|i: int, j: int| !untouched(b.cells).marked(i, j),
{
    let u = untouched(b.cells);
    assert forall|j: int| 0 <= j < u.moved.len() implies (#[trigger] u.moved[j]).len()
        == u.cells[0].len() by {
        assert(b.cells[j].len() == b.cells[0].len());
    }
}

/// Every species has a code below the number of species, and is the species
/// that its code stands for: a cell never reads as anything but one of the
/// species.
pub proof fn species_are_closed(s: Species)
    ensures
        s.spec_code() < SPECIES_COUNT,
        Species::spec_from_code(s.spec_code()) == s,
{
}

/// A tick keeps the grid a rectangle of the same size: after any number of
/// ticks every place inside the grid holds a cell, and every place outside
/// reads as wall.
pub proof fn tick_keeps_shape(w: World, n: nat)
    requires
        w.board.wf(),
    ensures
        w.board.fits(ticks(w, n).board),
        forall|x: int, y: int|
            !w.board.inside(x, y) ==> #[trigger] ticks(w, n).board.at(x, y) == Cell::spec_wall(),
    decreases n,
{
    if n > 0 {
        let v = ticks(w, (n - 1) as nat);
        tick_keeps_shape(w, (n - 1) as nat);
        lemma_untouched(v.board);
        lemma_run_rows_fits(v.frame, untouched(v.board.cells), v.board.height() as nat);
    }
}

/// The marks that a universe carries between ticks have no part in what a
/// tick does: two worlds with the same cells and the same frame are the same
/// world one tick later.
pub proof fn marks_do_not_matter(v: World, w: World)
    requires
        v.board.cells == w.board.cells,
        v.frame == w.frame,
    ensures
        tick(v) == tick(w),
{
}

} // verus!
