//! The executable grid.

use crate::board::{spec_dx, spec_dy, untouched, Board, Frame};
use crate::config::Config;
use crate::noise::advance;
use crate::species::{Cell, Species};
use vstd::prelude::*;

verus! {

/// The seed of a universe that is made without one.
pub const DEFAULT_SEED: u32 = 0x2545_F491;

/// Why a universe could not be made.
#[derive(Clone, Copy, Debug, PartialEq, Eq, Structural)]
pub enum GridError {
    /// The width or the height is zero or negative.
    NonPositiveSize,
}

/// What a universe is, as a mathematical value: its board and its frame.
#[verifier::ext_equal]
pub struct World {
    pub board: Board,
    pub frame: Frame,
}

impl World {
    /// This world with another board.
    pub open spec fn with(self, board: Board) -> World {
        World { board, frame: self.frame }
    }
}

/// A grid of `height` rows of `width` empty cells.
pub open spec fn blank(width: int, height: int) -> Seq<Seq<Cell>> {
    Seq::new(height as nat, |y: int| Seq::new(width as nat, |x: int| Cell::spec_empty()))
}

/// The places next to `(x, y)` in directions below `d` that lie inside `board`,
/// clockwise from straight up.
pub open spec fn neighbors_upto(board: Board, x: int, y: int, d: u8) -> Seq<(i32, i32)>
    decreases d,
{
    if d == 0 {
        Seq::empty()
    } else {
        let e = (d - 1) as u8;
        let rest = neighbors_upto(board, x, y, e);
        if board.inside(x + spec_dx(e), y + spec_dy(e)) {
            rest.push(((x + spec_dx(e)) as i32, (y + spec_dy(e)) as i32))
        } else {
            rest
        }
    }
}

/// A fixed-size grid of cells, with the seed of its random choices and the
/// constants of its rules.
pub struct Universe {
    width: i32,
    height: i32,
    cells: Vec<Vec<Cell>>,
    moved: Vec<Vec<bool>>,
    seed: u32,
    ticks: u64,
    config: Config,
}

impl View for Universe {
    type V = World;

    /// The board and the frame of this universe.
    open spec fn view(&self) -> World {
        World { board: self.board(), frame: self.frame() }
    }
}

impl Universe {
    /// The cells and marks of this universe.
    pub closed spec fn board(&self) -> Board {
        Board {
            cells: Seq::new(self.cells@.len(), |y: int| self.cells@[y]@),
            moved: Seq::new(self.moved@.len(), |y: int| self.moved@[y]@),
        }
    }

    /// The constants, seed and tick count of this universe.
    pub closed spec fn frame(&self) -> Frame {
        Frame { config: self.config, seed: self.seed, ticks: self.ticks }
    }

    /// Whether the stored size is that of the board.
    pub closed spec fn sized(&self) -> bool {
        self.width == self.board().width() && self.height == self.board().height()
    }

    /// Whether this universe is a rectangle of at least one cell. Every
    /// universe that this library hands out is.
    pub open spec fn wf(&self) -> bool {
        self.board().wf() && self.sized()
    }

    /// What well-formedness says of row `y` of the stored cells and marks.
    proof fn row_facts(&self, y: int)
        requires
            self.wf(),
            0 <= y < self.height,
        ensures
            0 < self.width,
            self.cells@.len() == self.height,
            self.moved@.len() == self.height,
            self.cells@[y]@.len() == self.width,
            self.moved@[y]@.len() == self.width,
            self.cells@[y]@ == self.board().cells[y],
            self.moved@[y]@ == self.board().moved[y],
    {
        let b = self.board();
        assert(b.cells[y].len() == b.cells[0].len());
        assert(b.moved[y].len() == b.cells[0].len());
    }

    /// A universe of `width` by `height` empty cells with the standard
    /// constants and seed, or an error if either side is not positive.
    pub fn new(width: i32, height: i32) -> (made: Result<Universe, GridError>)
        ensures
            made is Ok <==> width > 0 && height > 0,
            made matches Ok(u) ==> u.wf() && u@.board == untouched(
                blank(width as int, height as int),
            ) && u@.frame == (Frame {
                config: Config::spec_standard(),
                seed: DEFAULT_SEED,
                ticks: 0,
            }),
            made matches Err(e) ==> e == GridError::NonPositiveSize,
    {
        Universe::with_config(width, height, Config::standard(), DEFAULT_SEED)
    }

    /// A universe of `width` by `height` empty cells with the given constants
    /// and seed, or an error if either side is not positive.
    pub fn with_config(width: i32, height: i32, config: Config, seed: u32) -> (made: Result<
        Universe,
        GridError,
    >)
        ensures
            made is Ok <==> width > 0 && height > 0,
            made matches Ok(u) ==> u.wf() && u@.board == untouched(
                blank(width as int, height as int),
            ) && u@.frame == (Frame { config, seed, ticks: 0 }),
            made matches Err(e) ==> e == GridError::NonPositiveSize,
    {
        if width <= 0 || height <= 0 {
            return Err(GridError::NonPositiveSize);
        }
        let mut cells: Vec<Vec<Cell>> = Vec::new();
        let mut moved: Vec<Vec<bool>> = Vec::new();
        let mut y: i32 = 0;
        while y < height
            invariant
                0 <= y <= height,
                0 < width,
                cells@.len() == y,
                moved@.len() == y,
                forall|j: int|
                    0 <= j < y ==> (#[trigger] cells@[j])@ == Seq::new(
                        width as nat,
                        |x: int| Cell::spec_empty(),
                    ),
                forall|j: int|
                    0 <= j < y ==> (#[trigger] moved@[j])@ == Seq::new(
                        width as nat,
                        |x: int| false,
                    ),
            decreases height - y,
        {
            let mut row: Vec<Cell> = Vec::new();
            let mut marks: Vec<bool> = Vec::new();
            let mut x: i32 = 0;
            while x < width
                invariant
                    0 <= x <= width,
                    row@.len() == x,
                    marks@.len() == x,
                    forall|i: int| 0 <= i < x ==> row@[i] == Cell::spec_empty(),
                    forall|i: int| 0 <= i < x ==> marks@[i] == false,
                decreases width - x,
            {
                row.push(Cell::empty());
                marks.push(false);
                x = x + 1;
            }
            assert(row@ =~= Seq::new(width as nat, |x: int| Cell::spec_empty()));
            assert(marks@ =~= Seq::new(width as nat, |x: int| false));
            cells.push(row);
            moved.push(marks);
            y = y + 1;
        }
        let u = Universe { width, height, cells, moved, seed, ticks: 0, config };
        proof {
            assert(u.board() =~~= untouched(blank(width as int, height as int)));
        }
        Ok(u)
    }

    /// The number of columns.
    pub fn width(&self) -> (width: i32)
        requires
            self.wf(),
        ensures
            width == self@.board.width(),
            width > 0,
    {
        self.width
    }

    /// The number of rows.
    pub fn height(&self) -> (height: i32)
        requires
            self.wf(),
        ensures
            height == self@.board.height(),
            height > 0,
    {
        self.height
    }

    /// The constants of the rules.
    pub fn config(&self) -> (config: Config)
        ensures
            config == self@.frame.config,
    {
        self.config
    }

    /// The seed that the next tick or stroke draws from.
    pub fn seed(&self) -> (seed: u32)
        ensures
            seed == self@.frame.seed,
    {
        self.seed
    }

    /// The number of ticks so far.
    pub fn ticks(&self) -> (ticks: u64)
        ensures
            ticks == self@.frame.ticks,
    {
        self.ticks
    }

    /// Whether `(x, y)` is a place of the grid.
    pub fn contains(&self, x: i32, y: i32) -> (yes: bool)
        requires
            self.wf(),
        ensures
            yes == self@.board.inside(x as int, y as int),
    {
        0 <= x && x < self.width && 0 <= y && y < self.height
    }

    /// A copy of the cell at `(x, y)`; a wall for a place outside the grid.
    pub fn get_cell(&self, x: i32, y: i32) -> (cell: Cell)
        requires
            self.wf(),
        ensures
            cell == self@.board.at(x as int, y as int),
    {
        if 0 <= x && x < self.width && 0 <= y && y < self.height {
            proof {
                self.row_facts(y as int);
            }
            self.cells[y as usize][x as usize]
        } else {
            Cell::wall()
        }
    }

    /// Whether the cell at `(x, y)` was written since the last tick began.
    pub fn is_marked(&self, x: i32, y: i32) -> (yes: bool)
        requires
            self.wf(),
        ensures
            yes == self@.board.marked(x as int, y as int),
    {
        if 0 <= x && x < self.width && 0 <= y && y < self.height {
            proof {
                self.row_facts(y as int);
            }
            self.moved[y as usize][x as usize]
        } else {
            false
        }
    }

    /// Writes `cell` at `(x, y)` and marks the place; does nothing for a
    /// place outside the grid.
    pub(crate) fn put(&mut self, x: i32, y: i32, cell: Cell)
        requires
            old(self).wf(),
        ensures
            final(self).wf(),
            final(self)@.board == old(self)@.board.put(x as int, y as int, cell),
            final(self)@.frame == old(self)@.frame,
    {
        if 0 <= x && x < self.width && 0 <= y && y < self.height {
            proof {
                self.row_facts(y as int);
            }
            self.cells[y as usize][x as usize] = cell;
            self.moved[y as usize][x as usize] = true;
            proof {
                assert(self.board() =~~= old(self).board().put(x as int, y as int, cell));
            }
        }
    }

    /// Writes a cell of the given species and bytes at `(x, y)`; does nothing
    /// for a place outside the grid.
    pub fn set_cell(&mut self, x: i32, y: i32, species: Species, ra: u8, rb: u8)
        requires
            old(self).wf(),
        ensures
            final(self).wf(),
            final(self)@.board == old(self)@.board.put(
                x as int,
                y as int,
                Cell { species, ra, rb },
            ),
            final(self)@.frame == old(self)@.frame,
            old(self)@.board.fits(final(self)@.board),
    {
        self.put(x, y, Cell { species, ra, rb });
    }

    /// Replaces the seed that the next tick or stroke draws from.
    pub fn reseed(&mut self, seed: u32)
        requires
            old(self).wf(),
        ensures
            final(self).wf(),
            final(self)@.board == old(self)@.board,
            final(self)@.frame == (Frame { seed, ..old(self)@.frame }),
    {
        self.seed = seed;
    }

    /// Unmarks every cell, as at the start of a tick.
    pub fn clear_marks(&mut self)
        requires
            old(self).wf(),
        ensures
            final(self).wf(),
            final(self)@.board == untouched(old(self)@.board.cells),
            final(self)@.frame == old(self)@.frame,
    {
        let mut y: usize = 0;
        while y < self.moved.len()
            invariant
                self.cells@ == old(self).cells@,
                self.width == old(self).width,
                self.height == old(self).height,
                self.frame() == old(self).frame(),
                old(self).wf(),
                self.moved@.len() == old(self).moved@.len(),
                y <= self.moved@.len(),
                forall|j: int|
                    0 <= j < self.moved@.len() ==> (#[trigger] self.moved@[j])@.len() == old(
                        self,
                    ).moved@[j]@.len(),
                forall|j: int, i: int|
                    0 <= j < y && 0 <= i < self.moved@[j]@.len() ==> !(
                    #[trigger] self.moved@[j]@[i]),
            decreases self.moved@.len() - y,
        {
            let mut x: usize = 0;
            while x < self.moved[y].len()
                invariant
                    self.cells@ == old(self).cells@,
                    self.width == old(self).width,
                    self.height == old(self).height,
                    self.frame() == old(self).frame(),
                    old(self).wf(),
                    self.moved@.len() == old(self).moved@.len(),
                    y < self.moved@.len(),
                    x <= self.moved@[y as int]@.len(),
                    forall|j: int|
                        0 <= j < self.moved@.len() ==> (#[trigger] self.moved@[j])@.len() == old(
                            self,
                        ).moved@[j]@.len(),
                    forall|j: int, i: int|
                        0 <= j < y && 0 <= i < self.moved@[j]@.len() ==> !(
                        #[trigger] self.moved@[j]@[i]),
                    forall|i: int| 0 <= i < x ==> !(#[trigger] self.moved@[y as int]@[i]),
                decreases self.moved@[y as int]@.len() - x,
            {
                self.moved[y][x] = false;
                x = x + 1;
            }
            y = y + 1;
        }
        proof {
            let b = old(self).board();
            assert forall|j: int| 0 <= j < self.moved@.len() implies (#[trigger] self.moved@[j])@
                =~= Seq::new(b.cells[j].len(), |x: int| false) by {
                assert(b.moved[j].len() == b.cells[0].len());
                assert(b.cells[j].len() == b.cells[0].len());
            }
            assert(self.board() =~~= untouched(b.cells));
        }
    }

    /// Ends a tick: the seed moves on and the tick count grows by one,
    /// starting over from zero after the largest count.
    pub(crate) fn close_tick(&mut self)
        requires
            old(self).wf(),
        ensures
            final(self).wf(),
            final(self)@.board == old(self)@.board,
            final(self)@.frame == old(self)@.frame.next(),
    {
        self.seed = advance(self.seed);
        self.ticks = if self.ticks == u64::MAX {
            0
        } else {
            self.ticks + 1
        };
    }

    /// The places next to `(x, y)` that lie inside the grid, eight at most,
    /// clockwise from straight up.
    pub fn neighbors(&self, x: i32, y: i32) -> (places: Vec<(i32, i32)>)
        requires
            self.wf(),
        ensures
            places@ == neighbors_upto(self@.board, x as int, y as int, 8),
    {
        let mut places: Vec<(i32, i32)> = Vec::new();
        let mut d: u8 = 0;
        while d < 8
            invariant
                self.wf(),
                d <= 8,
                places@ == neighbors_upto(self@.board, x as int, y as int, d),
            decreases 8 - d,
        {
            match self.toward(x, y, d) {
                Some(p) => {
                    places.push(p);
                },
                None => {},
            }
            d = d + 1;
        }
        places
    }
}

} // verus!
