//! The material menu and the state of a running game.

use crate::board::untouched;
use crate::board::Frame;
use crate::config::Config;
use crate::paint::paint;
use crate::species::Species;
use crate::tick::tick;
use crate::universe::{blank, Universe, World};
use vstd::prelude::*;

verus! {

/// The side of a menu entry, in pixels, less one: an entry at `(x, y)` covers
/// the columns `x ..= x + 8` and the rows `y ..= y + 8`.
pub const WIDGET_SPAN: u32 = 8;

/// What a menu entry is, as a mathematical value.
pub struct WidgetView {
    pub species: Species,
    pub name: Seq<char>,
    pub idx: u32,
    pub x: u32,
    pub y: u32,
    pub col: u32,
    pub active: bool,
}

impl WidgetView {
    /// Whether the pointer at `(mouse_x, mouse_y)` is over this entry.
    pub open spec fn covers(self, mouse_x: u32, mouse_y: u32) -> bool {
        self.x <= mouse_x <= self.x + WIDGET_SPAN && self.y <= mouse_y <= self.y + WIDGET_SPAN
    }

    /// Whether a frame with this pointer state picks this entry.
    pub open spec fn picked(self, left_click: bool, mouse_x: u32, mouse_y: u32) -> bool {
        left_click && self.covers(mouse_x, mouse_y)
    }

    /// This entry after a frame with this pointer state: a click makes it
    /// active if it is on the entry and inactive if it is not; without a click
    /// it stays as it is.
    pub open spec fn after(self, left_click: bool, mouse_x: u32, mouse_y: u32) -> WidgetView {
        if left_click {
            WidgetView { active: self.covers(mouse_x, mouse_y), ..self }
        } else {
            self
        }
    }
}

/// One entry of the material menu: a sprite at a place on the screen that
/// selects a species when it is clicked.
pub struct Widget {
    species: Species,
    name: String,
    idx: u32,
    x: u32,
    y: u32,
    col: u32,
    active: bool,
}

impl View for Widget {
    type V = WidgetView;

    /// What this entry is made of.
    closed spec fn view(&self) -> WidgetView {
        WidgetView {
            species: self.species,
            name: self.name@,
            idx: self.idx,
            x: self.x,
            y: self.y,
            col: self.col,
            active: self.active,
        }
    }
}

impl Widget {
    /// A menu entry for `species` with the sprite `idx` at `(x, y)`.
    pub fn new(
        species: Species,
        name: String,
        idx: u32,
        x: u32,
        y: u32,
        col: u32,
        active: bool,
    ) -> (widget: Widget)
        ensures
            widget@ == (WidgetView { species, name: name@, idx, x, y, col, active }),
    {
        Widget { species, name, idx, x, y, col, active }
    }

    /// Takes the pointer state of one frame. Returns whether this entry was
    /// picked, that is clicked on.
    pub fn update(&mut self, left_click: bool, mouse_x: u32, mouse_y: u32) -> (picked: bool)
        ensures
            picked == old(self)@.picked(left_click, mouse_x, mouse_y),
            final(self)@ == old(self)@.after(left_click, mouse_x, mouse_y),
    {
        if left_click {
            if mouse_x >= self.x && mouse_x - self.x <= WIDGET_SPAN {
                if mouse_y >= self.y && mouse_y - self.y <= WIDGET_SPAN {
                    self.active = true;
                    return true;
                }
            }
            self.active = false;
        }
        false
    }

    /// The species that this entry selects.
    pub fn species(&self) -> (species: Species)
        ensures
            species == self@.species,
    {
        self.species
    }

    /// The label of this entry.
    pub fn name(&self) -> (name: &str)
        ensures
            name@ == self@.name,
    {
        self.name.as_str()
    }

    /// The number of the sprite of this entry.
    pub fn idx(&self) -> (idx: u32)
        ensures
            idx == self@.idx,
    {
        self.idx
    }

    /// The column of the left edge of this entry.
    pub fn x(&self) -> (x: u32)
        ensures
            x == self@.x,
    {
        self.x
    }

    /// The row of the top edge of this entry.
    pub fn y(&self) -> (y: u32)
        ensures
            y == self@.y,
    {
        self.y
    }

    /// The colour of this entry.
    pub fn col(&self) -> (col: u32)
        ensures
            col == self@.col,
    {
        self.col
    }

    /// Whether this entry is the one last clicked.
    pub fn is_active(&self) -> (active: bool)
        ensures
            active == self@.active,
    {
        self.active
    }
}

/// The side of the square grid of a game.
pub const GAME_SIDE: i32 = 256;

/// The radius of the brush that the pointer paints with.
pub const BRUSH_RADIUS: i32 = 10;

/// The distance between the grid and the menu to the right of it.
pub const MENU_GAP: u32 = 2;

/// One stroke of the brush.
#[derive(Clone, Copy, Debug, PartialEq, Eq, Structural)]
pub struct Stroke {
    pub x: i32,
    pub y: i32,
    pub radius: i32,
    pub species: Species,
}

/// The world after the given strokes, the first first.
pub open spec fn painted(w: World, strokes: Seq<Stroke>) -> World
    decreases strokes.len(),
{
    if strokes.len() == 0 {
        w
    } else {
        let last = strokes.last();
        paint(
            painted(w, strokes.drop_last()),
            last.x as int,
            last.y as int,
            last.radius as int,
            last.species,
        )
    }
}

/// The species that is selected after a frame: that of the last entry of the
/// menu that was picked, or `current` if none was.
pub open spec fn chosen(
    widgets: Seq<WidgetView>,
    left_click: bool,
    mouse_x: u32,
    mouse_y: u32,
    current: Species,
) -> Species
    decreases widgets.len(),
{
    if widgets.len() == 0 {
        current
    } else if widgets.last().picked(left_click, mouse_x, mouse_y) {
        widgets.last().species
    } else {
        chosen(widgets.drop_last(), left_click, mouse_x, mouse_y, current)
    }
}

/// The pointer coordinate as the grid takes it: the same number, counted
/// down from zero in the upper half of the range.
pub open spec fn spec_wrap(u: u32) -> int {
    if u <= i32::MAX {
        u as int
    } else {
        u - 0x1_0000_0000
    }
}

/// The pointer coordinate as the grid takes it.
pub fn wrap(u: u32) -> (i: i32)
    ensures
        i == spec_wrap(u),
{
    if u <= 0x7fff_ffff {
        u as i32
    } else {
        (u as i64 - 0x1_0000_0000) as i32
    }
}

/// The entry of the menu at place `i`, counted from 1, for a menu in column
/// `x`: one entry below the other, eight rows apart.
pub open spec fn menu_entry(species: Species, name: Seq<char>, i: u32, x: u32) -> WidgetView {
    WidgetView { species, name, idx: i, x, y: (8 * (i - 1)) as u32, col: 2, active: false }
}

/// The menu of a game, in column `x`.
pub open spec fn menu(x: u32) -> Seq<WidgetView> {
    seq![
        menu_entry(Species::Water, "Water"@, 1, x),
        menu_entry(Species::Fire, "Fire"@, 2, x),
        menu_entry(Species::Lava, "Lava"@, 3, x),
        menu_entry(Species::Seed, "Seed"@, 4, x),
        menu_entry(Species::Sand, "Sand"@, 5, x),
        menu_entry(Species::Plant, "Plant"@, 6, x),
        menu_entry(Species::Rocket, "Rocket"@, 7, x),
        menu_entry(Species::Oil, "Oil"@, 8, x),
        menu_entry(Species::Acid, "Acid"@, 9, x),
        menu_entry(Species::Stone, "Stone"@, 10, x),
        menu_entry(Species::Wood, "Wood"@, 11, x),
        menu_entry(Species::Mite, "Mite"@, 12, x),
        menu_entry(Species::Gas, "Gas"@, 13, x),
        menu_entry(Species::Ice, "Ice"@, 14, x),
    ]
}

/// What a game is, as a mathematical value.
#[verifier::ext_equal]
pub struct GameView {
    pub world: World,
    pub width: int,
    pub height: int,
    pub widgets: Seq<WidgetView>,
    pub current_species: Species,
}

impl GameView {
    /// The game one frame later, the pointer being at `(mouse_x, mouse_y)`
    /// with its left button down or not. Every entry of the menu takes the
    /// pointer state; the last entry picked, if any, sets the species; with
    /// the button down the brush paints that species at the pointer; then
    /// the grid makes one step.
    pub open spec fn after(self, left_click: bool, mouse_x: u32, mouse_y: u32) -> GameView {
        let species = chosen(self.widgets, left_click, mouse_x, mouse_y, self.current_species);
        let world = if left_click {
            paint(self.world, spec_wrap(mouse_x), spec_wrap(mouse_y), BRUSH_RADIUS as int, species)
        } else {
            self.world
        };
        GameView {
            world: tick(world),
            width: self.width,
            height: self.height,
            widgets: Seq::new(
                self.widgets.len(),
                |i: int| self.widgets[i].after(left_click, mouse_x, mouse_y),
            ),
            current_species: species,
        }
    }
}

/// A running game: the grid, the menu, and the species that the brush
/// paints.
pub struct MyGame {
    universe: Universe,
    width: i32,
    height: i32,
    widgets: Vec<Widget>,
    current_species: Species,
}

impl View for MyGame {
    type V = GameView;

    /// The world, the menu and the species of the brush.
    closed spec fn view(&self) -> GameView {
        GameView {
            world: self.universe@,
            width: self.width as int,
            height: self.height as int,
            widgets: Seq::new(self.widgets@.len(), |i: int| self.widgets@[i]@),
            current_species: self.current_species,
        }
    }
}

impl MyGame {
    /// Whether the grid of this game is well formed and of the size that
    /// the game holds. Every game that `init` hands out is.
    pub closed spec fn wf(&self) -> bool {
        self.universe.wf() && self.width == self.universe@.board.width() && self.height
            == self.universe@.board.height()
    }

    /// A new game: an empty grid of 256 by 256 cells with the standard
    /// constants and the given seed, on which the given strokes are painted
    /// in their order; the menu to the right of the grid; and sand as the
    /// species of the brush.
    pub fn init(seed: u32, strokes: &Vec<Stroke>) -> (game: MyGame)
        ensures
            game.wf(),
            game@ == (GameView {
                world: painted(
                    World {
                        board: untouched(blank(GAME_SIDE as int, GAME_SIDE as int)),
                        frame: Frame { config: Config::spec_standard(), seed, ticks: 0 },
                    },
                    strokes@,
                ),
                width: GAME_SIDE as int,
                height: GAME_SIDE as int,
                widgets: menu((GAME_SIDE + MENU_GAP) as u32),
                current_species: Species::Sand,
            }),
    {
        let made = Universe::with_config(GAME_SIDE, GAME_SIDE, Config::standard(), seed);
        let mut universe = made.unwrap();
        let ghost start = universe@;
        let mut i: usize = 0;
        while i < strokes.len()
            invariant
                i <= strokes@.len(),
                universe.wf(),
                start.board.wf(),
                start.board.fits(universe@.board),
                universe@ == painted(start, strokes@.take(i as int)),
            decreases strokes@.len() - i,
        {
            let s = strokes[i];
            proof {
                assert(strokes@.take(i + 1).drop_last() =~= strokes@.take(i as int));
            }
            universe.paint(s.x, s.y, s.radius, s.species);
            i = i + 1;
        }
        proof {
            assert(strokes@.take(i as int) =~= strokes@);
        }
        let x: u32 = GAME_SIDE as u32 + MENU_GAP;
        let mut widgets: Vec<Widget> = Vec::new();
        widgets.push(Widget::new(Species::Water, "Water".to_owned(), 1, x, 0, 2, false));
        widgets.push(Widget::new(Species::Fire, "Fire".to_owned(), 2, x, 8, 2, false));
        widgets.push(Widget::new(Species::Lava, "Lava".to_owned(), 3, x, 16, 2, false));
        widgets.push(Widget::new(Species::Seed, "Seed".to_owned(), 4, x, 24, 2, false));
        widgets.push(Widget::new(Species::Sand, "Sand".to_owned(), 5, x, 32, 2, false));
        widgets.push(Widget::new(Species::Plant, "Plant".to_owned(), 6, x, 40, 2, false));
        widgets.push(Widget::new(Species::Rocket, "Rocket".to_owned(), 7, x, 48, 2, false));
        widgets.push(Widget::new(Species::Oil, "Oil".to_owned(), 8, x, 56, 2, false));
        widgets.push(Widget::new(Species::Acid, "Acid".to_owned(), 9, x, 64, 2, false));
        widgets.push(Widget::new(Species::Stone, "Stone".to_owned(), 10, x, 72, 2, false));
        widgets.push(Widget::new(Species::Wood, "Wood".to_owned(), 11, x, 80, 2, false));
        widgets.push(Widget::new(Species::Mite, "Mite".to_owned(), 12, x, 88, 2, false));
        widgets.push(Widget::new(Species::Gas, "Gas".to_owned(), 13, x, 96, 2, false));
        widgets.push(Widget::new(Species::Ice, "Ice".to_owned(), 14, x, 104, 2, false));
        let game = MyGame {
            universe,
            width: GAME_SIDE,
            height: GAME_SIDE,
            widgets,
            current_species: Species::Sand,
        };
        proof {
            assert(game@.widgets =~= menu((GAME_SIDE + MENU_GAP) as u32));
        }
        game
    }

    /// Takes one frame: the pointer is at `(mouse_x, mouse_y)` with its left
    /// button down or not.
    pub fn update(&mut self, left_click: bool, mouse_x: u32, mouse_y: u32)
        requires
            old(self).wf(),
        ensures
            final(self).wf(),
            final(self)@ == old(self)@.after(left_click, mouse_x, mouse_y),
    {
        let ghost before = self@.widgets;
        let ghost first = self.current_species;
        let mut i: usize = 0;
        while i < self.widgets.len()
            invariant
                self.universe == old(self).universe,
                self.width == old(self).width,
                self.height == old(self).height,
                before == old(self)@.widgets,
                first == old(self).current_species,
                self.widgets@.len() == before.len(),
                i <= before.len(),
                forall|k: int|
                    0 <= k < i ==> (#[trigger] self.widgets@[k])@ == before[k].after(
                        left_click,
                        mouse_x,
                        mouse_y,
                    ),
                forall|k: int|
                    i <= k < before.len() ==> (#[trigger] self.widgets@[k])@ == before[k],
                self.current_species == chosen(
                    before.take(i as int),
                    left_click,
                    mouse_x,
                    mouse_y,
                    first,
                ),
            decreases before.len() - i,
        {
            proof {
                assert(before.take(i + 1).drop_last() =~= before.take(i as int));
            }
            if self.widgets[i].update(left_click, mouse_x, mouse_y) {
                self.current_species = self.widgets[i].species();
            }
            i = i + 1;
        }
        proof {
            assert(before.take(i as int) =~= before);
        }
        if left_click {
            self.universe.paint(wrap(mouse_x), wrap(mouse_y), BRUSH_RADIUS, self.current_species);
        }
        self.universe.tick();
        proof {
            assert(self@.widgets =~= old(self)@.after(left_click, mouse_x, mouse_y).widgets);
        }
    }

    /// The grid of this game.
    pub fn universe(&self) -> (universe: &Universe)
        requires
            self.wf(),
        ensures
            universe.wf(),
            universe@ == self@.world,
    {
        &self.universe
    }

    /// The number of columns of the grid.
    pub fn width(&self) -> (width: i32)
        ensures
            width == self@.width,
    {
        self.width
    }

    /// The number of rows of the grid.
    pub fn height(&self) -> (height: i32)
        ensures
            height == self@.height,
    {
        self.height
    }

    /// The entries of the menu.
    pub fn widgets(&self) -> (widgets: &Vec<Widget>)
        ensures
            widgets@.len() == self@.widgets.len(),
            forall|i: int|
                0 <= i < widgets@.len() ==> (#[trigger] widgets@[i])@ == self@.widgets[i],
    {
        &self.widgets
    }

    /// The species that the brush paints.
    pub fn current_species(&self) -> (species: Species)
        ensures
            species == self@.current_species,
    {
        self.current_species
    }
}

} // verus!
