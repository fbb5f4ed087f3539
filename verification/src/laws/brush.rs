//! A brush of radius zero paints one cell.

use crate::board::Board;
use crate::laws::shape::{lemma_put, lemma_stamp_fits};
use crate::noise::spec_noise;
use crate::paint::{in_disc, spec_fresh, spec_paintable};
use crate::species::Species;
use vstd::prelude::*;

verus! {

/// Only the centre lies in a disc of radius zero.
pub proof fn lemma_disc_zero(dx: int, dy: int)
    ensures
        in_disc(dx, dy, 0) <==> dx == 0 && dy == 0,
{
    assert(dx * dx + dy * dy <= 0 <==> dx == 0 && dy == 0) by (nonlinear_arith);
}

/// A stroke of radius zero on a cell that may be painted writes that one
/// cell, and nothing else: the cell at the centre becomes a fresh particle
/// of the species, whatever the grid held, and every other cell stays as it
/// was. A cell may be painted unless it is a wall and the species is not
/// `Empty`.
pub proof fn point_brush_paints_one_cell(b: Board, seed: u32, x: int, y: int, species: Species)
    requires
        b.wf(),
        b.inside(x, y),
        spec_paintable(b.at(x, y).species, species),
    ensures
        b.stamp(seed, x, y, 0, species) == b.put(x, y, spec_fresh(species, spec_noise(seed, x, y))),
        b.stamp(seed, x, y, 0, species).at(x, y).species == species,
        forall|i: int, j: int|
            !(i == x && j == y) ==> #[trigger] b.stamp(seed, x, y, 0, species).at(i, j) == b.at(
                i,
                j,
            ),
{
    let after = b.stamp(seed, x, y, 0, species);
    let goal = b.put(x, y, spec_fresh(species, spec_noise(seed, x, y)));
    lemma_put(b, x, y, spec_fresh(species, spec_noise(seed, x, y)));
    lemma_stamp_fits(b, seed, x, y, 0, species);
    assert forall|i: int, j: int| b.inside(i, j) implies after.cells[j][i] == goal.cells[j][i]
        && after.moved[j][i] == goal.moved[j][i] by {
        lemma_disc_zero(i - x, j - y);
        assert(b.cells[j].len() == b.cells[0].len());
        assert(b.moved[j].len() == b.cells[0].len());
    }
    assert forall|j: int| 0 <= j < b.height() implies after.cells[j] =~= goal.cells[j]
        && after.moved[j] =~= goal.moved[j] by {
        assert(b.cells[j].len() == b.cells[0].len());
        assert(b.moved[j].len() == b.cells[0].len());
        assert(goal.cells[j].len() == goal.cells[0].len());
        assert(goal.moved[j].len() == goal.cells[0].len());
        assert forall|i: int| 0 <= i < b.width() implies after.cells[j][i] == goal.cells[j][i]
            && after.moved[j][i] == goal.moved[j][i] by {
            assert(b.inside(i, j));
        }
    }
    assert(after =~~= goal);
}

/// A stroke of radius zero on a wall, with any species but `Empty`, and a
/// stroke of radius zero outside the grid change no cell.
pub proof fn point_brush_spares(b: Board, seed: u32, x: int, y: int, species: Species)
    requires
        b.wf(),
        !b.inside(x, y) || !spec_paintable(b.at(x, y).species, species),
    ensures
        b.stamp(seed, x, y, 0, species) == b,
{
    let after = b.stamp(seed, x, y, 0, species);
    assert forall|j: int| 0 <= j < b.height() implies after.cells[j] =~= b.cells[j]
        && after.moved[j] =~= b.moved[j] by {
        assert(b.cells[j].len() == b.cells[0].len());
        assert(b.moved[j].len() == b.cells[0].len());
        assert forall|i: int| 0 <= i < b.width() implies after.cells[j][i] == b.cells[j][i]
            && after.moved[j][i] == b.moved[j][i] by {
            lemma_disc_zero(i - x, j - y);
        }
    }
    assert(after =~~= b);
}

/// A stroke sets every cell of its disc that may be painted, and no other:
/// inside the grid, a cell within the radius of the centre that is no wall,
/// or any such cell if the species is `Empty`, becomes a fresh particle of
/// the species; every other cell stays as it was.
pub proof fn brush_covers_its_disc(
    b: Board,
    seed: u32,
    cx: int,
    cy: int,
    radius: int,
    species: Species,
)
    requires
        b.wf(),
    ensures
        b.fits(b.stamp(seed, cx, cy, radius, species)),
        forall|x: int, y: int|
            #![trigger b.stamp(seed, cx, cy, radius, species).at(x, y)]
            b.stamp(seed, cx, cy, radius, species).at(x, y) == (if b.inside(x, y) && in_disc(
                x - cx,
                y - cy,
                radius,
            ) && spec_paintable(b.at(x, y).species, species) {
                spec_fresh(species, spec_noise(seed, x, y))
            } else {
                b.at(x, y)
            }),
        forall|x: int, y: int|
            b.inside(x, y) && in_disc(x - cx, y - cy, radius) && b.at(x, y).species
                != Species::Wall ==> (#[trigger] b.stamp(seed, cx, cy, radius, species).at(
                x,
                y,
            )).species == species,
{
    lemma_stamp_fits(b, seed, cx, cy, radius, species);
    assert forall|x: int, y: int| b.inside(x, y) implies b.cells[y].len() == b.cells[0].len() by {}
}

} // verus!
