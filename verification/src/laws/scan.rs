//! The scan of a grid in which few cells have a turn to take.

use crate::board::{untouched, Board, Frame};
use crate::laws::shape::{lemma_turn_fits, lemma_untouched};
use crate::rules::turn;
use crate::tick::{column, run_row, run_rows, tick};
use crate::universe::World;
use vstd::prelude::*;

verus! {

/// Whether the turn of the cell at `(x, y)` leaves this board as it is. That
/// is so of every place outside the grid and of every cell that is marked,
/// empty or a wall, and of any other cell that finds nothing to do.
pub open spec fn still(f: Frame, b: Board, x: int, y: int) -> bool {
    turn(f, b, x, y) == b
}

/// Whether the scan has passed `(x, y)` once `n` cells of row `row` have had
/// their turn, the rows below it having been scanned before.
pub open spec fn passed(f: Frame, width: int, row: int, n: int, x: int, y: int) -> bool {
    y > row || (y == row && column(f, width, x) < n)
}

/// The place of a column in the scan of a row is the column of that place.
pub proof fn lemma_column_mirror(f: Frame, width: int, j: int)
    ensures
        column(f, width, column(f, width, j)) == j,
        0 <= j < width <==> 0 <= column(f, width, j) < width,
{
}

/// The scan of a row in which only the turn of the cell in column `sx` may
/// change the board is that one turn, provided it leaves no other cell of
/// the row with anything to do.
pub proof fn lemma_run_row_single(f: Frame, b: Board, y: int, sx: int, n: nat)
    requires
        b.wf(),
        0 <= n <= b.width(),
        forall|i: int| i != sx ==> #[trigger] still(f, b, i, y),
        forall|i: int| i != sx ==> #[trigger] still(f, turn(f, b, sx, y), i, y),
    ensures
        run_row(f, b, y, b.width(), n) == (if n > column(f, b.width(), sx) && b.inside(sx, y) {
            turn(f, b, sx, y)
        } else {
            b
        }),
    decreases n,
{
    if n > 0 {
        lemma_run_row_single(f, b, y, sx, (n - 1) as nat);
        let before = run_row(f, b, y, b.width(), (n - 1) as nat);
        let i = column(f, b.width(), n - 1);
        lemma_column_mirror(f, b.width(), n - 1);
        lemma_column_mirror(f, b.width(), sx);
        lemma_turn_fits(f, b, sx, y);
        if i != sx {
            assert(still(f, b, i, y));
            assert(still(f, turn(f, b, sx, y), i, y));
        }
    }
}

/// The scan of rows in which no cell has anything to do changes nothing: if
/// the board is `after` once the lowest `done` rows are scanned, and every
/// cell of the next rows up to the `m`-th is still on `after`, the board is
/// `after` once `m` rows are scanned.
pub proof fn lemma_run_rows_still(f: Frame, b: Board, after: Board, done: nat, m: nat)
    requires
        b.wf(),
        b.fits(after),
        done <= m,
        run_rows(f, b, done) == after,
        forall|i: int, j: int|
            b.height() - m <= j < b.height() - done ==> #[trigger] still(f, after, i, j),
    ensures
        run_rows(f, b, m) == after,
    decreases m,
{
    if m > done {
        lemma_run_rows_still(f, b, after, done, (m - 1) as nat);
        let y = b.height() - m;
        assert forall|i: int| #[trigger] still(f, after, i, y) by {}
        assert forall|i: int| i != -1 implies #[trigger] still(f, turn(f, after, -1, y), i, y) by {
            assert(still(f, after, i, y));
        }
        lemma_run_row_single(f, after, y, -1, after.width() as nat);
    }
}

/// A tick of a grid in which the turn of one cell alone may change the
/// board is that one turn, provided it leaves no other cell with anything
/// to do.
pub proof fn lemma_tick_single(w: World, x: int, y: int)
    requires
        w.board.wf(),
        w.board.inside(x, y),
        forall|i: int, j: int|
            !(i == x && j == y) ==> #[trigger] still(w.frame, untouched(w.board.cells), i, j),
        forall|i: int, j: int|
            !(i == x && j == y) ==> #[trigger] still(
                w.frame,
                turn(w.frame, untouched(w.board.cells), x, y),
                i,
                j,
            ),
    ensures
        tick(w).board == turn(w.frame, untouched(w.board.cells), x, y),
{
    let f = w.frame;
    let b = untouched(w.board.cells);
    let after = turn(f, b, x, y);
    let h = b.height();
    lemma_untouched(w.board);
    lemma_turn_fits(f, b, x, y);
    lemma_run_rows_still(f, b, b, 0, (h - 1 - y) as nat);
    assert(run_rows(f, b, (h - y) as nat) == after) by {
        lemma_run_row_single(f, b, y, x, b.width() as nat);
        lemma_column_mirror(f, b.width(), x);
    }
    lemma_run_rows_still(f, b, after, (h - y) as nat, h as nat);
}

} // verus!
