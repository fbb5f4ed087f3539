//! Acid does not eat for ever: every bite costs it, and nothing gives
//! it back.

use crate::board::{spec_dx, spec_dy, untouched, Board, Frame};
use crate::laws::mass::{lemma_put_total, lemma_relocate_total, total};
use crate::laws::scan::{lemma_run_rows_still, lemma_tick_single, still};
use crate::laws::shape::{
    lemma_dest_inside, lemma_find, lemma_put, lemma_put_any, lemma_relocate_fits,
    lemma_slide_vacant, lemma_untouched, tick_keeps_shape,
};
use crate::noise::{spec_noise, spec_pick};
use crate::paint::spec_fresh;
use crate::rules::{corrode, dest, react, ticket, turn};
use crate::species::{Cell, Kind, Species};
use crate::tick::{column, run_row, run_rows, tick, ticks};
use crate::universe::World;
use vstd::prelude::*;

verus! {

/// How many neighbours an acid with this cell can still eat: its budget
/// byte, or the largest budget if that is less, and one at the least. Zero
/// for a cell that is no acid.
pub open spec fn appetite(f: Frame, c: Cell) -> nat {
    if c.species != Species::Acid {
        0
    } else if c.rb <= 1 || f.config.acid_budget <= 1 {
        1
    } else if c.rb < f.config.acid_budget {
        c.rb as nat
    } else {
        f.config.acid_budget as nat
    }
}

/// The appetite of all the acid of a grid together.
pub open spec fn hunger(f: Frame, cells: Seq<Seq<Cell>>) -> nat {
    total(cells, |c: Cell| appetite(f, c))
}

/// Whether no cell of the board is a cloner or a rocket.
pub open spec fn sterile(b: Board) -> bool {
    forall|x: int, y: int|
        b.inside(x, y) ==> (#[trigger] b.at(x, y)).species != Species::Cloner && b.at(
            x,
            y,
        ).species != Species::Rocket
}

/// Writing a cell that is no cloner and no rocket and has no more appetite
/// than what it replaces leaves a sterile board sterile and does not add to
/// its hunger.
pub proof fn lemma_put_sated(f: Frame, b: Board, x: int, y: int, c: Cell)
    requires
        b.wf(),
        sterile(b),
        c.species != Species::Cloner,
        c.species != Species::Rocket,
        b.inside(x, y) ==> appetite(f, c) <= appetite(f, b.at(x, y)),
    ensures
        b.fits(b.put(x, y, c)),
        sterile(b.put(x, y, c)),
        hunger(f, b.put(x, y, c).cells) <= hunger(f, b.cells),
        b.inside(x, y) ==> hunger(f, b.put(x, y, c).cells) == hunger(f, b.cells) - appetite(
            f,
            b.at(x, y),
        ) + appetite(f, c),
{
    lemma_put(b, x, y, c);
    lemma_put_total(b, x, y, c, |c: Cell| appetite(f, c));
    let after = b.put(x, y, c);
    assert forall|i: int, j: int| after.inside(i, j) implies (#[trigger] after.at(i, j)).species
        != Species::Cloner && after.at(i, j).species != Species::Rocket by {
        assert(b.at(i, j).species != Species::Cloner);
    }
}

/// Exchanging two cells of a sterile board leaves it sterile and its hunger
/// as it is.
pub proof fn lemma_relocate_sated(f: Frame, b: Board, x: int, y: int, nx: int, ny: int)
    requires
        b.wf(),
        sterile(b),
    ensures
        b.fits(b.relocate(x, y, nx, ny)),
        sterile(b.relocate(x, y, nx, ny)),
        hunger(f, b.relocate(x, y, nx, ny).cells) == hunger(f, b.cells),
{
    let first = b.put(nx, ny, b.at(x, y));
    lemma_put(b, nx, ny, b.at(x, y));
    lemma_put(first, x, y, b.at(nx, ny));
    lemma_relocate_total(b, x, y, nx, ny, |c: Cell| appetite(f, c));
    let after = b.relocate(x, y, nx, ny);
    assert forall|i: int, j: int| after.inside(i, j) implies (#[trigger] after.at(i, j)).species
        != Species::Cloner && after.at(i, j).species != Species::Rocket by {
        assert(b.at(i, j).species != Species::Cloner);
        assert(b.at(x, y).species != Species::Cloner);
        assert(b.at(nx, ny).species != Species::Cloner);
    }
}

/// Writing a cell changes the hunger of the board by the difference between
/// the appetite of what is written and of what was there.
pub proof fn lemma_put_hunger(f: Frame, b: Board, x: int, y: int, c: Cell)
    requires
        b.wf(),
        b.inside(x, y),
    ensures
        b.fits(b.put(x, y, c)),
        hunger(f, b.put(x, y, c).cells) == hunger(f, b.cells) - appetite(f, b.at(x, y))
            + appetite(f, c),
{
    lemma_put(b, x, y, c);
    lemma_put_total(b, x, y, c, |c: Cell| appetite(f, c));
}

/// An acid that eats has less appetite afterwards: the neighbour it eats is
/// gone, the acid is gone too if it was at the end of its budget, and the
/// hunger of the board has shrunk by one at least. An acid with nothing to
/// eat stays as it is.
pub proof fn lemma_corrode_spends(f: Frame, b: Board, x: int, y: int)
    requires
        b.wf(),
        b.inside(x, y),
        b.at(x, y).species == Species::Acid,
    ensures
        b.fits(corrode(f, b, x, y)),
        sterile(b) ==> sterile(corrode(f, b, x, y)),
        hunger(f, corrode(f, b, x, y).cells) <= hunger(f, b.cells),
        b.near(x, y, Kind::Corrodible) ==> {
            let d = b.find(x, y, Kind::Corrodible, 0);
            &&& hunger(f, corrode(f, b, x, y).cells) < hunger(f, b.cells)
            &&& corrode(f, b, x, y).at(x + spec_dx(d), y + spec_dy(d)) == Cell::spec_empty()
            &&& appetite(f, corrode(f, b, x, y).at(x, y)) < appetite(f, b.at(x, y))
            &&& appetite(f, b.at(x, y)) == 1 ==> corrode(f, b, x, y).at(x, y) == Cell::spec_empty()
        },
        !b.near(x, y, Kind::Corrodible) ==> corrode(f, b, x, y) == b,
{
    let c = b.at(x, y);
    let d = b.find(x, y, Kind::Corrodible, 0);
    lemma_find(b, x, y, Kind::Corrodible, 0);
    if d < 8 {
        let vx = x + spec_dx(d);
        let vy = y + spec_dy(d);
        let eaten = b.put(vx, vy, Cell::spec_empty());
        lemma_put_hunger(f, b, vx, vy, Cell::spec_empty());
        lemma_put(b, vx, vy, Cell::spec_empty());
        assert(eaten.at(x, y) == c);
        let budget = if c.rb < f.config.acid_budget {
            c.rb
        } else {
            f.config.acid_budget
        };
        let left = if budget <= 1 {
            Cell::spec_empty()
        } else {
            Cell { species: Species::Acid, ra: c.ra, rb: (budget - 1) as u8 }
        };
        assert(corrode(f, b, x, y) == eaten.put(x, y, left));
        lemma_put_hunger(f, eaten, x, y, left);
        lemma_put(eaten, x, y, left);
        if sterile(b) {
            lemma_put_sated(f, b, vx, vy, Cell::spec_empty());
            lemma_put_sated(f, eaten, x, y, left);
        }
    }
}

/// On a sterile board a reaction makes no cloner and no rocket and does not
/// add to the hunger.
pub proof fn lemma_react_sated(f: Frame, b: Board, x: int, y: int, r: u32)
    requires
        b.wf(),
        sterile(b),
        b.inside(x, y),
    ensures
        b.fits(react(f, b, x, y, r)),
        sterile(react(f, b, x, y, r)),
        hunger(f, react(f, b, x, y, r).cells) <= hunger(f, b.cells),
{
    let c = b.at(x, y);
    if c.species == Species::Acid {
        lemma_corrode_spends(f, b, x, y);
    } else if c.species == Species::Lava {
        let d = b.find(x, y, Kind::Wet, 0);
        lemma_find(b, x, y, Kind::Wet, 0);
        let dried = b.put(x + spec_dx(d), y + spec_dy(d), Cell::spec_empty());
        lemma_put_sated(f, b, x + spec_dx(d), y + spec_dy(d), Cell::spec_empty());
        if d < 8 {
            lemma_put(b, x + spec_dx(d), y + spec_dy(d), Cell::spec_empty());
            assert(dried.at(x, y) == c);
            lemma_put_sated(f, dried, x, y, Cell { species: Species::Stone, ra: c.ra, rb: c.rb });
        }
    } else {
        assert(appetite(f, c) == 0);
        assert forall|k: Cell|
            k.species != Species::Cloner && k.species != Species::Rocket && k.species
                != Species::Acid implies sterile(#[trigger] b.put(x, y, k)) && hunger(
            f,
            b.put(x, y, k).cells,
        ) <= hunger(f, b.cells) && b.fits(b.put(x, y, k)) by {
            lemma_put_sated(f, b, x, y, k);
        }
        let kind = if c.species == Species::Plant {
            Kind::Vacant
        } else {
            Kind::Host
        };
        let d = b.find(x, y, kind, spec_pick(r));
        lemma_find(b, x, y, kind, spec_pick(r));
        lemma_put_sated(f, b, x + spec_dx(d), y + spec_dy(d), spec_fresh(c.species, r));
    }
}

/// On a sterile board a turn makes no cloner and no rocket and does not add
/// to the hunger.
pub proof fn lemma_turn_sated(f: Frame, b: Board, x: int, y: int)
    requires
        b.wf(),
        sterile(b),
    ensures
        b.fits(turn(f, b, x, y)),
        sterile(turn(f, b, x, y)),
        hunger(f, turn(f, b, x, y).cells) <= hunger(f, b.cells),
{
    if b.inside(x, y) && !b.moved[y][x] {
        let c = b.at(x, y);
        let r = spec_noise(f.seed, x, y);
        assert(c.species != Species::Cloner && c.species != Species::Rocket);
        if c.species == Species::Mite {
            let d = b.find(x, y, Kind::Fodder, spec_pick(r));
            lemma_put_sated(f, b, x + spec_dx(d), y + spec_dy(d), Cell::spec_empty());
            let w = b.wander(x, y, ticket(r, b.lure_below(x, y, 8)), 0);
            lemma_relocate_sated(f, b, x, y, x + spec_dx(w), y + spec_dy(w));
        } else if c.species != Species::Empty && c.species != Species::Wall {
            let to = dest(f, b, x, y);
            lemma_dest_inside(f, b, x, y);
            lemma_relocate_sated(f, b, x, y, to.0, to.1);
            lemma_react_sated(f, b.relocate(x, y, to.0, to.1), to.0, to.1, r);
        }
    }
}

/// On a sterile board the scan of part of a row makes no cloner and no
/// rocket and does not add to the hunger.
pub proof fn lemma_run_row_sated(f: Frame, b: Board, y: int, width: int, n: nat)
    requires
        b.wf(),
        sterile(b),
    ensures
        b.fits(run_row(f, b, y, width, n)),
        sterile(run_row(f, b, y, width, n)),
        hunger(f, run_row(f, b, y, width, n).cells) <= hunger(f, b.cells),
    decreases n,
{
    if n > 0 {
        lemma_run_row_sated(f, b, y, width, (n - 1) as nat);
        lemma_turn_sated(f, run_row(f, b, y, width, (n - 1) as nat), column(f, width, n - 1), y);
    }
}

/// On a sterile board the scan of some rows makes no cloner and no rocket
/// and does not add to the hunger.
pub proof fn lemma_run_rows_sated(f: Frame, b: Board, m: nat)
    requires
        b.wf(),
        sterile(b),
    ensures
        b.fits(run_rows(f, b, m)),
        sterile(run_rows(f, b, m)),
        hunger(f, run_rows(f, b, m).cells) <= hunger(f, b.cells),
    decreases m,
{
    if m > 0 {
        lemma_run_rows_sated(f, b, (m - 1) as nat);
        lemma_run_row_sated(
            f,
            run_rows(f, b, (m - 1) as nat),
            b.height() - m,
            b.width(),
            b.width() as nat,
        );
    }
}

/// Corrosion ends. In a grid without cloner and rocket, which alone could
/// make new acid, no tick adds to the appetite of all the acid together;
/// and by `every_bite_costs` every bite takes one from it at least.
/// So the acid of a grid never eats more cells than its appetite counts.
pub proof fn tick_feeds_no_acid(w: World)
    requires
        w.board.wf(),
        sterile(w.board),
    ensures
        sterile(tick(w).board),
        hunger(tick(w).frame, tick(w).board.cells) <= hunger(w.frame, w.board.cells),
{
    lemma_untouched(w.board);
    let start = untouched(w.board.cells);
    assert forall|x: int, y: int| start.inside(x, y) implies (#[trigger] start.at(x, y)).species
        != Species::Cloner && start.at(x, y).species != Species::Rocket by {
        assert(w.board.at(x, y).species != Species::Cloner);
    }
    lemma_run_rows_sated(w.frame, start, w.board.height() as nat);
    let after = tick(w).board.cells;
    assert((|c: Cell| appetite(tick(w).frame, c)) =~= (|c: Cell| appetite(w.frame, c)));
}

/// The frame of a world keeps its constants through every tick.
pub proof fn lemma_ticks_keep_config(w: World, n: nat)
    ensures
        ticks(w, n).frame.config == w.frame.config,
    decreases n,
{
    if n > 0 {
        lemma_ticks_keep_config(w, (n - 1) as nat);
    }
}

/// The appetite of the acid of a grid without cloner and rocket never
/// grows, however many ticks pass.
pub proof fn hunger_never_grows(w: World, n: nat)
    requires
        w.board.wf(),
        sterile(w.board),
    ensures
        sterile(ticks(w, n).board),
        hunger(w.frame, ticks(w, n).board.cells) <= hunger(w.frame, w.board.cells),
    decreases n,
{
    if n > 0 {
        let v = ticks(w, (n - 1) as nat);
        hunger_never_grows(w, (n - 1) as nat);
        tick_keeps_shape(w, (n - 1) as nat);
        lemma_ticks_keep_config(w, (n - 1) as nat);
        lemma_ticks_keep_config(w, n);
        tick_feeds_no_acid(v);
        assert((|c: Cell| appetite(tick(v).frame, c)) =~= (|c: Cell| appetite(w.frame, c)));
        assert((|c: Cell| appetite(v.frame, c)) =~= (|c: Cell| appetite(w.frame, c)));
    }
}

/// Every bite costs. At the turn of an acid that comes to rest with
/// something to eat next to it, whatever else the board holds, that
/// neighbour is gone, the acid has less appetite than before, an acid at the
/// end of its budget is gone itself, and the hunger of the board has shrunk
/// by one at least. So an acid eats no more cells than its appetite counts,
/// which is at most the largest budget of the constants and one at the
/// least.
pub proof fn every_bite_costs(f: Frame, b: Board, x: int, y: int)
    requires
        b.wf(),
        b.inside(x, y),
        !b.marked(x, y),
        b.at(x, y).species == Species::Acid,
        b.relocate(x, y, dest(f, b, x, y).0, dest(f, b, x, y).1).near(
            dest(f, b, x, y).0,
            dest(f, b, x, y).1,
            Kind::Corrodible,
        ),
    ensures
        hunger(f, turn(f, b, x, y).cells) < hunger(f, b.cells),
        appetite(f, turn(f, b, x, y).at(dest(f, b, x, y).0, dest(f, b, x, y).1)) < appetite(
            f,
            b.at(x, y),
        ),
        appetite(f, b.at(x, y)) == 1 ==> turn(f, b, x, y).at(
            dest(f, b, x, y).0,
            dest(f, b, x, y).1,
        ) == Cell::spec_empty(),
        1 <= appetite(f, b.at(x, y)),
        appetite(f, b.at(x, y)) <= 1 || appetite(f, b.at(x, y)) <= f.config.acid_budget,
{
    let to = dest(f, b, x, y);
    lemma_dest_inside(f, b, x, y);
    let shifted = b.relocate(x, y, to.0, to.1);
    lemma_relocate_fits(b, x, y, to.0, to.1);
    lemma_relocate_total(b, x, y, to.0, to.1, |c: Cell| appetite(f, c));
    lemma_put(b, to.0, to.1, b.at(x, y));
    lemma_put(b.put(to.0, to.1, b.at(x, y)), x, y, b.at(to.0, to.1));
    assert(shifted.at(to.0, to.1) == b.at(x, y));
    lemma_corrode_spends(f, shifted, to.0, to.1);
}

/// Whether the grid holds nothing but empty cells, walls and wood.
pub open spec fn wooden(b: Board) -> bool {
    &&& b.wf()
    &&& forall|i: int, j: int|
        b.inside(i, j) ==> (#[trigger] b.at(i, j)).species == Species::Empty || b.at(i, j).species
            == Species::Wall || b.at(i, j).species == Species::Wood
}

/// Whether the grid holds one acid, at `(x, y)`, and nothing else but empty
/// cells, walls and wood.
pub open spec fn steeped(b: Board, x: int, y: int) -> bool {
    &&& b.wf()
    &&& b.inside(x, y)
    &&& b.at(x, y).species == Species::Acid
    &&& forall|i: int, j: int|
        b.inside(i, j) && !(i == x && j == y) ==> (#[trigger] b.at(i, j)).species
            == Species::Empty || b.at(i, j).species == Species::Wall || b.at(i, j).species
            == Species::Wood
}

/// Whether the acid at `(x, y)` of a steeped grid has something to eat next
/// to the place where it comes to rest in the coming tick.
pub open spec fn fed(w: World, x: int, y: int) -> bool {
    let b = untouched(w.board.cells);
    let to = dest(w.frame, b, x, y);
    b.relocate(x, y, to.0, to.1).near(to.0, to.1, Kind::Corrodible)
}

/// Wood with nothing hot and no fungus in the grid has nothing to do.
pub proof fn lemma_wood_is_still(f: Frame, b: Board, x: int, y: int, i: int, j: int)
    requires
        b.wf(),
        wooden(b) || steeped(b, x, y),
        !(i == x && j == y) || wooden(b),
    ensures
        still(f, b, i, j),
{
    if b.inside(i, j) && !b.moved[j][i] && b.at(i, j).species == Species::Wood {
        lemma_find(b, i, j, Kind::Hot, 0);
        lemma_find(b, i, j, Kind::Mould, 0);
        let h = b.find(i, j, Kind::Hot, 0);
        let m = b.find(i, j, Kind::Mould, 0);
        if h < 8 {
            let s = b.at(i + spec_dx(h), j + spec_dy(h)).species;
            assert(s == Species::Empty || s == Species::Wall || s == Species::Wood || s
                == Species::Acid);
        }
        if m < 8 {
            let s = b.at(i + spec_dx(m), j + spec_dy(m)).species;
            assert(s == Species::Empty || s == Species::Wall || s == Species::Wood || s
                == Species::Acid);
        }
        assert(dest(f, b, i, j) == (i, j));
        assert(b.relocate(i, j, i, j) == b);
    } else if b.inside(i, j) {
        assert(b.at(i, j).species == Species::Empty || b.at(i, j).species == Species::Wall
            || b.at(i, j).species == Species::Wood);
    }
}

/// One acid in wood. In a grid of wood, walls and empty cells with one acid
/// in it, a tick is the turn of the acid and nothing else. Afterwards the
/// grid is of the same kind, with the acid where it came to rest, or
/// without acid. If the acid came to rest with something to eat next to
/// it, it has less appetite than before, and it is gone if it had appetite
/// for one bite only.
pub proof fn acid_eats_its_way(w: World, x: int, y: int)
    requires
        steeped(w.board, x, y),
    ensures
        tick(w).board == turn(w.frame, untouched(w.board.cells), x, y),
        wooden(tick(w).board) || steeped(
            tick(w).board,
            dest(w.frame, untouched(w.board.cells), x, y).0,
            dest(w.frame, untouched(w.board.cells), x, y).1,
        ),
        !wooden(tick(w).board) ==> appetite(
            w.frame,
            tick(w).board.at(
                dest(w.frame, untouched(w.board.cells), x, y).0,
                dest(w.frame, untouched(w.board.cells), x, y).1,
            ),
        ) <= appetite(w.frame, w.board.at(x, y)),
        fed(w, x, y) ==> (wooden(tick(w).board) || appetite(
            w.frame,
            tick(w).board.at(
                dest(w.frame, untouched(w.board.cells), x, y).0,
                dest(w.frame, untouched(w.board.cells), x, y).1,
            ),
        ) < appetite(w.frame, w.board.at(x, y))),
        fed(w, x, y) && appetite(w.frame, w.board.at(x, y)) == 1 ==> wooden(tick(w).board),
{
    let f = w.frame;
    let b = untouched(w.board.cells);
    lemma_untouched(w.board);
    assert(b.at(x, y) == w.board.at(x, y));
    assert forall|i: int, j: int| b.inside(i, j) && !(i == x && j == y) implies (#[trigger] b.at(
        i,
        j,
    )).species == Species::Empty || b.at(i, j).species == Species::Wall || b.at(i, j).species
        == Species::Wood by {
        assert(b.at(i, j) == w.board.at(i, j));
    }
    let c = b.at(x, y);
    let to = dest(f, b, x, y);
    lemma_dest_inside(f, b, x, y);
    lemma_slide_vacant(b, x, y, f.lean(), f.config.spread as nat);
    lemma_slide_vacant(b, x, y, -f.lean(), f.config.spread as nat);
    let shifted = b.relocate(x, y, to.0, to.1);
    lemma_relocate_fits(b, x, y, to.0, to.1);
    lemma_put(b, to.0, to.1, c);
    lemma_put(b.put(to.0, to.1, c), x, y, b.at(to.0, to.1));
    assert(to == (x, y) || b.at(to.0, to.1).species == Species::Empty);
    assert(shifted.at(to.0, to.1) == c);
    assert forall|i: int, j: int|
        shifted.inside(i, j) && !(i == to.0 && j == to.1) implies (#[trigger] shifted.at(
        i,
        j,
    )).species == Species::Empty || shifted.at(i, j).species == Species::Wall || shifted.at(
        i,
        j,
    ).species == Species::Wood by {
        if i == x && j == y {
        } else {
            assert(b.at(i, j).species == Species::Empty || b.at(i, j).species == Species::Wall
                || b.at(i, j).species == Species::Wood);
        }
    }
    let after = turn(f, b, x, y);
    assert(after == corrode(f, shifted, to.0, to.1));
    lemma_corrode_spends(f, shifted, to.0, to.1);
    let d = shifted.find(to.0, to.1, Kind::Corrodible, 0);
    lemma_find(shifted, to.0, to.1, Kind::Corrodible, 0);
    if d < 8 {
        let vx = to.0 + spec_dx(d);
        let vy = to.1 + spec_dy(d);
        let eaten = shifted.put(vx, vy, Cell::spec_empty());
        lemma_put_any(shifted, vx, vy);
        lemma_put_any(eaten, to.0, to.1);
    }
    assert forall|i: int, j: int|
        after.inside(i, j) && !(i == to.0 && j == to.1) implies (#[trigger] after.at(
        i,
        j,
    )).species == Species::Empty || after.at(i, j).species == Species::Wall || after.at(
        i,
        j,
    ).species == Species::Wood by {
        assert(shifted.at(i, j).species == Species::Empty || shifted.at(i, j).species
            == Species::Wall || shifted.at(i, j).species == Species::Wood);
    }
    assert(after.at(to.0, to.1).species == Species::Acid || after.at(to.0, to.1).species
        == Species::Empty);
    assert forall|i: int, j: int| !(i == x && j == y) implies #[trigger] still(f, b, i, j) by {
        lemma_wood_is_still(f, b, x, y, i, j);
    }
    assert forall|i: int, j: int| !(i == x && j == y) implies #[trigger] still(f, after, i, j) by {
        if i == to.0 && j == to.1 {
            if to != (x, y) {
                assert(after.marked(i, j));
            }
        } else if after.at(to.0, to.1).species == Species::Acid {
            lemma_wood_is_still(f, after, to.0, to.1, i, j);
        } else {
            lemma_wood_is_still(f, after, x, y, i, j);
        }
    }
    lemma_tick_single(w, x, y);
}

/// Where the acid of a steeped grid that is at `(x, y)` is `n` ticks later,
/// if it is not gone by then.
pub open spec fn trail(w: World, x: int, y: int, n: nat) -> (int, int)
    decreases n,
{
    if n == 0 {
        (x, y)
    } else {
        let v = ticks(w, (n - 1) as nat);
        let p = trail(w, x, y, (n - 1) as nat);
        dest(v.frame, untouched(v.board.cells), p.0, p.1)
    }
}

/// Whether the acid has something to eat in each of the first `n` ticks, as
/// long as it is there.
pub open spec fn well_fed(w: World, x: int, y: int, n: nat) -> bool {
    forall|k: nat|
        k < n && steeped(ticks(w, k).board, trail(w, x, y, k).0, trail(w, x, y, k).1) ==> #[trigger] fed(
            ticks(w, k),
            trail(w, x, y, k).0,
            trail(w, x, y, k).1,
        )
}

/// Corrosion ends. One acid in a grid of wood, walls and empty cells that
/// comes to rest next to wood tick after tick has after `n` such ticks
/// appetite for `n` bites less than at first, or is gone; and it is gone
/// after as many ticks as its appetite counted at first.
pub proof fn acid_spends_itself(w: World, x: int, y: int, n: nat)
    requires
        steeped(w.board, x, y),
        well_fed(w, x, y, n),
    ensures
        wooden(ticks(w, n).board) || (steeped(
            ticks(w, n).board,
            trail(w, x, y, n).0,
            trail(w, x, y, n).1,
        ) && appetite(
            w.frame,
            ticks(w, n).board.at(trail(w, x, y, n).0, trail(w, x, y, n).1),
        ) + n <= appetite(w.frame, w.board.at(x, y))),
        n >= appetite(w.frame, w.board.at(x, y)) ==> wooden(ticks(w, n).board),
    decreases n,
{
    if n > 0 {
        let m = (n - 1) as nat;
        assert forall|k: nat|
            k < m && steeped(
                ticks(w, k).board,
                trail(w, x, y, k).0,
                trail(w, x, y, k).1,
            ) implies #[trigger] fed(ticks(w, k), trail(w, x, y, k).0, trail(w, x, y, k).1) by {}
        acid_spends_itself(w, x, y, m);
        let v = ticks(w, m);
        let p = trail(w, x, y, m);
        lemma_ticks_keep_config(w, m);
        if wooden(v.board) {
            lemma_wooden_rests(v);
        } else {
            assert(fed(v, p.0, p.1));
            acid_eats_its_way(v, p.0, p.1);
            assert(v.frame.config == w.frame.config);
            assert forall|c: Cell| appetite(v.frame, c) == appetite(w.frame, c) by {}
        }
    }
}

/// A grid of wood, walls and empty cells does not change.
pub proof fn lemma_wooden_rests(w: World)
    requires
        wooden(w.board),
    ensures
        tick(w).board == untouched(w.board.cells),
        wooden(tick(w).board),
{
    let f = w.frame;
    let b = untouched(w.board.cells);
    lemma_untouched(w.board);
    assert forall|i: int, j: int| b.inside(i, j) implies (#[trigger] b.at(i, j)).species
        == Species::Empty || b.at(i, j).species == Species::Wall || b.at(i, j).species
        == Species::Wood by {
        assert(b.at(i, j) == w.board.at(i, j));
    }
    assert forall|i: int, j: int| #[trigger] still(f, b, i, j) by {
        lemma_wood_is_still(f, b, 0, 0, i, j);
    }
    lemma_run_rows_still(f, b, b, 0, b.height() as nat);
}

} // verus!
