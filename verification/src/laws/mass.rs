//! Movement relocates and never duplicates: without the species that
//! breed, a tick makes no new particle.

use crate::board::{spec_dx, spec_dy, untouched, Board, Frame};
use crate::laws::shape::{
    lemma_dest_inside, lemma_find, lemma_put, lemma_untouched, tick_keeps_shape,
};
use crate::noise::{spec_noise, spec_pick};
use crate::rules::{dest, mite_turn, react, ticket, turn};
use crate::species::{Cell, Kind, Species};
use crate::tick::{column, run_row, run_rows, tick, ticks};
use crate::universe::World;
use vstd::prelude::*;

verus! {

/// The sum of the weights of the cells of a row.
pub open spec fn row_total(row: Seq<Cell>, weight: spec_fn(Cell) -> nat) -> nat
    decreases row.len(),
{
    if row.len() == 0 {
        0
    } else {
        row_total(row.drop_last(), weight) + weight(row.last())
    }
}

/// The sum of the weights of the cells of a grid.
pub open spec fn total(cells: Seq<Seq<Cell>>, weight: spec_fn(Cell) -> nat) -> nat
    decreases cells.len(),
{
    if cells.len() == 0 {
        0
    } else {
        total(cells.drop_last(), weight) + row_total(cells.last(), weight)
    }
}

/// What a cell counts for in the mass of a grid: one, unless it is empty.
pub open spec fn solid(c: Cell) -> nat {
    if c.species == Species::Empty {
        0
    } else {
        1
    }
}

/// The number of cells of a grid that are not empty.
pub open spec fn mass(cells: Seq<Seq<Cell>>) -> nat {
    total(cells, |c: Cell| solid(c))
}

/// Replacing one cell of a row changes the sum by the difference of the two
/// weights.
pub proof fn lemma_row_total_update(row: Seq<Cell>, i: int, c: Cell, weight: spec_fn(Cell) -> nat)
    requires
        0 <= i < row.len(),
    ensures
        row_total(row.update(i, c), weight) == row_total(row, weight) - weight(row[i]) + weight(c),
    decreases row.len(),
{
    let after = row.update(i, c);
    if i == row.len() - 1 {
        assert(after.drop_last() =~= row.drop_last());
    } else {
        assert(after.drop_last() =~= row.drop_last().update(i, c));
        lemma_row_total_update(row.drop_last(), i, c, weight);
    }
}

/// Replacing one row of a grid changes the sum by the difference of the sums
/// of the two rows.
pub proof fn lemma_total_update(
    cells: Seq<Seq<Cell>>,
    y: int,
    row: Seq<Cell>,
    weight: spec_fn(Cell) -> nat,
)
    requires
        0 <= y < cells.len(),
    ensures
        total(cells.update(y, row), weight) == total(cells, weight) - row_total(cells[y], weight)
            + row_total(row, weight),
    decreases cells.len(),
{
    let after = cells.update(y, row);
    if y == cells.len() - 1 {
        assert(after.drop_last() =~= cells.drop_last());
    } else {
        assert(after.drop_last() =~= cells.drop_last().update(y, row));
        lemma_total_update(cells.drop_last(), y, row, weight);
    }
}

/// Writing a cell changes the sum of the weights by the difference between
/// what is written and what was there.
pub proof fn lemma_put_total(b: Board, x: int, y: int, c: Cell, weight: spec_fn(Cell) -> nat)
    requires
        b.wf(),
    ensures
        total(b.put(x, y, c).cells, weight) == (if b.inside(x, y) {
            total(b.cells, weight) - weight(b.at(x, y)) + weight(c)
        } else {
            total(b.cells, weight) as int
        }),
{
    if b.inside(x, y) {
        assert(b.cells[y].len() == b.cells[0].len());
        lemma_row_total_update(b.cells[y], x, c, weight);
        lemma_total_update(b.cells, y, b.cells[y].update(x, c), weight);
    }
}

/// Exchanging two cells leaves the sum of the weights as it is.
pub proof fn lemma_relocate_total(
    b: Board,
    x: int,
    y: int,
    nx: int,
    ny: int,
    weight: spec_fn(Cell) -> nat,
)
    requires
        b.wf(),
    ensures
        total(b.relocate(x, y, nx, ny).cells, weight) == total(b.cells, weight),
{
    let first = b.put(nx, ny, b.at(x, y));
    lemma_put(b, nx, ny, b.at(x, y));
    lemma_put_total(b, nx, ny, b.at(x, y), weight);
    lemma_put_total(first, x, y, b.at(nx, ny), weight);
}

/// The species whose rules make new particles: cloner, rocket, fungus, plant
/// and seed.
pub open spec fn breeds(s: Species) -> bool {
    s == Species::Cloner || s == Species::Rocket || s == Species::Fungus || s == Species::Plant
        || s == Species::Seed
}

/// Whether no cell of the board is of a species that breeds.
pub open spec fn barren(b: Board) -> bool {
    forall|x: int, y: int| b.inside(x, y) ==> !breeds(#[trigger] b.at(x, y).species)
}

/// Exchanging two cells of a barren board leaves it barren.
pub proof fn lemma_relocate_barren(b: Board, x: int, y: int, nx: int, ny: int)
    requires
        b.wf(),
        barren(b),
    ensures
        barren(b.relocate(x, y, nx, ny)),
        b.fits(b.relocate(x, y, nx, ny)),
{
    let first = b.put(nx, ny, b.at(x, y));
    lemma_put(b, nx, ny, b.at(x, y));
    lemma_put(first, x, y, b.at(nx, ny));
    let after = b.relocate(x, y, nx, ny);
    assert forall|i: int, j: int| after.inside(i, j) implies !breeds(
        #[trigger] after.at(i, j).species,
    ) by {
        assert(!breeds(b.at(i, j).species));
        assert(!breeds(b.at(x, y).species));
        assert(!breeds(b.at(nx, ny).species));
    }
}

/// Writing a cell that does not breed and weighs no more than what it
/// replaces leaves a barren board barren and does not add to its mass.
pub proof fn lemma_put_light(b: Board, x: int, y: int, c: Cell)
    requires
        b.wf(),
        barren(b),
        !breeds(c.species),
        b.inside(x, y) ==> solid(c) <= solid(b.at(x, y)),
    ensures
        b.fits(b.put(x, y, c)),
        barren(b.put(x, y, c)),
        mass(b.put(x, y, c).cells) <= mass(b.cells),
{
    lemma_put(b, x, y, c);
    lemma_put_total(b, x, y, c, |c: Cell| solid(c));
    let after = b.put(x, y, c);
    assert forall|i: int, j: int| after.inside(i, j) implies !breeds(
        #[trigger] after.at(i, j).species,
    ) by {
        assert(!breeds(b.at(i, j).species));
    }
}

/// On a barren board a reaction makes nothing that breeds and adds nothing
/// to the mass.
pub proof fn lemma_react_mass(f: Frame, b: Board, x: int, y: int, r: u32)
    requires
        b.wf(),
        barren(b),
        b.inside(x, y),
    ensures
        b.fits(react(f, b, x, y, r)),
        barren(react(f, b, x, y, r)),
        mass(react(f, b, x, y, r).cells) <= mass(b.cells),
{
    let c = b.at(x, y);
    assert(!breeds(c.species));
    assert forall|k: Cell| !breeds(k.species) && solid(k) <= solid(c) implies barren(
        #[trigger] b.put(x, y, k),
    ) && mass(b.put(x, y, k).cells) <= mass(b.cells) && b.fits(b.put(x, y, k)) by {
        lemma_put_light(b, x, y, k);
    }
    if c.species == Species::Acid {
        let d = b.find(x, y, Kind::Corrodible, 0);
        lemma_find(b, x, y, Kind::Corrodible, 0);
        let eaten = b.put(x + spec_dx(d), y + spec_dy(d), Cell::spec_empty());
        lemma_put_light(b, x + spec_dx(d), y + spec_dy(d), Cell::spec_empty());
        if d < 8 {
            lemma_put(b, x + spec_dx(d), y + spec_dy(d), Cell::spec_empty());
            assert(eaten.at(x, y) == c);
            assert forall|k: Cell| !breeds(k.species) implies barren(#[trigger] eaten.put(x, y, k))
                && mass(eaten.put(x, y, k).cells) <= mass(eaten.cells) && b.fits(
                eaten.put(x, y, k),
            ) by {
                lemma_put_light(eaten, x, y, k);
            }
        }
    } else if c.species == Species::Lava {
        let d = b.find(x, y, Kind::Wet, 0);
        lemma_find(b, x, y, Kind::Wet, 0);
        let dried = b.put(x + spec_dx(d), y + spec_dy(d), Cell::spec_empty());
        lemma_put_light(b, x + spec_dx(d), y + spec_dy(d), Cell::spec_empty());
        if d < 8 {
            lemma_put(b, x + spec_dx(d), y + spec_dy(d), Cell::spec_empty());
            assert(dried.at(x, y) == c);
            lemma_put_light(dried, x, y, Cell { species: Species::Stone, ra: c.ra, rb: c.rb });
        }
    }
}

/// On a barren board a mite makes nothing that breeds and adds nothing to
/// the mass.
pub proof fn lemma_mite_mass(f: Frame, b: Board, x: int, y: int, r: u32)
    requires
        b.wf(),
        barren(b),
        b.inside(x, y),
    ensures
        b.fits(mite_turn(f, b, x, y, r)),
        barren(mite_turn(f, b, x, y, r)),
        mass(mite_turn(f, b, x, y, r).cells) <= mass(b.cells),
{
    let d = b.find(x, y, Kind::Fodder, spec_pick(r));
    lemma_put_light(b, x + spec_dx(d), y + spec_dy(d), Cell::spec_empty());
    let total = b.lure_below(x, y, 8);
    let w = b.wander(x, y, ticket(r, total), 0);
    lemma_relocate_barren(b, x, y, x + spec_dx(w), y + spec_dy(w));
    lemma_relocate_total(b, x, y, x + spec_dx(w), y + spec_dy(w), |c: Cell| solid(c));
}

/// On a barren board a turn makes nothing that breeds and adds nothing to
/// the mass.
pub proof fn lemma_turn_mass(f: Frame, b: Board, x: int, y: int)
    requires
        b.wf(),
        barren(b),
    ensures
        b.fits(turn(f, b, x, y)),
        barren(turn(f, b, x, y)),
        mass(turn(f, b, x, y).cells) <= mass(b.cells),
{
    if b.inside(x, y) && !b.moved[y][x] {
        let c = b.at(x, y);
        let r = spec_noise(f.seed, x, y);
        assert(!breeds(c.species));
        if c.species == Species::Mite {
            lemma_mite_mass(f, b, x, y, r);
        } else if c.species != Species::Empty && c.species != Species::Wall {
            let to = dest(f, b, x, y);
            lemma_dest_inside(f, b, x, y);
            let shifted = b.relocate(x, y, to.0, to.1);
            lemma_relocate_barren(b, x, y, to.0, to.1);
            lemma_relocate_total(b, x, y, to.0, to.1, |c: Cell| solid(c));
            lemma_react_mass(f, shifted, to.0, to.1, r);
        }
    }
}

/// On a barren board the scan of part of a row makes nothing that breeds and
/// adds nothing to the mass.
pub proof fn lemma_run_row_mass(f: Frame, b: Board, y: int, width: int, n: nat)
    requires
        b.wf(),
        barren(b),
    ensures
        b.fits(run_row(f, b, y, width, n)),
        barren(run_row(f, b, y, width, n)),
        mass(run_row(f, b, y, width, n).cells) <= mass(b.cells),
    decreases n,
{
    if n > 0 {
        lemma_run_row_mass(f, b, y, width, (n - 1) as nat);
        lemma_turn_mass(f, run_row(f, b, y, width, (n - 1) as nat), column(f, width, n - 1), y);
    }
}

/// On a barren board the scan of some rows makes nothing that breeds and
/// adds nothing to the mass.
pub proof fn lemma_run_rows_mass(f: Frame, b: Board, m: nat)
    requires
        b.wf(),
        barren(b),
    ensures
        b.fits(run_rows(f, b, m)),
        barren(run_rows(f, b, m)),
        mass(run_rows(f, b, m).cells) <= mass(b.cells),
    decreases m,
{
    if m > 0 {
        lemma_run_rows_mass(f, b, (m - 1) as nat);
        lemma_run_row_mass(
            f,
            run_rows(f, b, (m - 1) as nat),
            b.height() - m,
            b.width(),
            b.width() as nat,
        );
    }
}

/// Mass is not created. In a grid without cloner, rocket, fungus, plant and
/// seed, a tick leaves no more cells that are not empty than it found, and
/// again none of those five species.
pub proof fn tick_creates_no_mass(w: World)
    requires
        w.board.wf(),
        barren(w.board),
    ensures
        barren(tick(w).board),
        mass(tick(w).board.cells) <= mass(w.board.cells),
{
    lemma_untouched(w.board);
    let start = untouched(w.board.cells);
    assert forall|x: int, y: int| start.inside(x, y) implies !breeds(
        #[trigger] start.at(x, y).species,
    ) by {
        assert(!breeds(w.board.at(x, y).species));
    }
    lemma_run_rows_mass(w.frame, start, w.board.height() as nat);
}

/// Mass is never created: in a grid without cloner, rocket, fungus, plant
/// and seed, no number of ticks leaves more cells that are not empty than
/// there were at first.
pub proof fn mass_never_grows(w: World, n: nat)
    requires
        w.board.wf(),
        barren(w.board),
    ensures
        barren(ticks(w, n).board),
        mass(ticks(w, n).board.cells) <= mass(w.board.cells),
    decreases n,
{
    if n > 0 {
        mass_never_grows(w, (n - 1) as nat);
        tick_keeps_shape(w, (n - 1) as nat);
        tick_creates_no_mass(ticks(w, (n - 1) as nat));
    }
}

} // verus!
