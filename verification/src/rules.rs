//! The rules: what one cell does when its turn comes.
//!
//! Each rule is a function from a board to a board, [`turn`] being the rule
//! of rules. A cell that moves does so first and then reacts to what it
//! finds around its new place. Of the reactions that could apply to a cell,
//! only the first in the order corrosion, ignition, extinguishing, growth is
//! carried out.

use crate::board::{spec_dx, spec_dy, Board, Frame};
use crate::noise::{chance, noise, pick, spec_chance, spec_noise, spec_pick};
use crate::paint::{fresh, spec_fresh};
use crate::species::{Cell, Class, Kind, Species};
use crate::universe::Universe;
use vstd::prelude::*;

verus! {

/// The fire that a burnable particle turns into: a full lifetime, and a mark
/// on the fire of oil, which leaves smoke.
pub open spec fn ignited(f: Frame, c: Cell) -> Cell {
    Cell {
        species: Species::Fire,
        ra: f.config.fire_lifetime,
        rb: if c.species == Species::Oil {
            1
        } else {
            0
        },
    }
}

/// What a fire leaves when it goes out by itself: smoke, that is gas, if it
/// is marked, else nothing.
pub open spec fn burnt(c: Cell, r: u32) -> Cell {
    if c.rb != 0 {
        spec_fresh(Species::Gas, r)
    } else {
        Cell::spec_empty()
    }
}

/// Whether a cell of this species holds up an arch.
pub open spec fn props(s: Species) -> bool {
    s == Species::Stone || s == Species::Wall
}

/// Whether a seed on a cell of this species grows.
pub open spec fn fertile(s: Species) -> bool {
    s == Species::Sand || s == Species::Plant || s == Species::Fungus
}

/// The ticket of a mite's step: a number below `total` taken from the draw.
pub open spec fn ticket(r: u32, total: nat) -> nat {
    ((r / 0x1_0000) as int % (total as int)) as nat
}

/// Where the grain at `(x, y)` goes: straight down if it can take that place,
/// else diagonally down, the side of the scan first, else nowhere.
pub open spec fn grain_dest(f: Frame, b: Board, x: int, y: int) -> (int, int) {
    let s = b.at(x, y).species;
    if b.open_to(s, x, y + 1) {
        (x, y + 1)
    } else if b.open_to(s, x + f.lean(), y + 1) {
        (x + f.lean(), y + 1)
    } else if b.open_to(s, x - f.lean(), y + 1) {
        (x - f.lean(), y + 1)
    } else {
        (x, y)
    }
}

/// Where the liquid (`dy` = 1) or gas (`dy` = -1) at `(x, y)` goes: one row
/// on if that place is empty, else sideways over empty cells, the side of
/// the scan first, else nowhere.
pub open spec fn fluid_dest(f: Frame, b: Board, x: int, y: int, dy: int) -> (int, int) {
    if b.vacant(x, y + dy) {
        (x, y + dy)
    } else {
        let ahead = b.slide(x, y, f.lean(), f.config.spread as nat);
        if ahead != x {
            (ahead, y)
        } else {
            (b.slide(x, y, -f.lean(), f.config.spread as nat), y)
        }
    }
}

/// Where the particle at `(x, y)` goes by its class.
pub open spec fn dest(f: Frame, b: Board, x: int, y: int) -> (int, int) {
    match b.at(x, y).species.spec_class() {
        Class::Granular => grain_dest(f, b, x, y),
        Class::Liquid => fluid_dest(f, b, x, y, 1),
        Class::Gas => fluid_dest(f, b, x, y, -1),
        _ => (x, y),
    }
}

/// The board with a fresh particle of `species` in the first neighbour of
/// `(x, y)` of a species in `kind`, counting from a direction that the draw
/// picks; the same board if there is no such neighbour.
pub open spec fn sow(b: Board, x: int, y: int, kind: Kind, species: Species, r: u32) -> Board {
    let d = b.find(x, y, kind, spec_pick(r));
    if d < 8 {
        b.put(x + spec_dx(d), y + spec_dy(d), spec_fresh(species, r))
    } else {
        b
    }
}

/// Fire: water next to it puts it out. Else it burns down by one, and goes
/// out when its lifetime is spent or nothing burnable is next to it.
pub open spec fn burn(f: Frame, b: Board, x: int, y: int, r: u32) -> Board {
    let c = b.at(x, y);
    let life = if c.ra < f.config.fire_lifetime {
        c.ra
    } else {
        f.config.fire_lifetime
    };
    if b.near(x, y, Kind::Wet) {
        b.put(x, y, Cell::spec_empty())
    } else if life <= 1 || !b.near(x, y, Kind::Fuel) {
        b.put(x, y, burnt(c, r))
    } else {
        b.put(x, y, Cell { species: Species::Fire, ra: (life - 1) as u8, rb: c.rb })
    }
}

/// Acid: it eats its first neighbour that is neither empty nor wall, and
/// that costs it one of its budget; with the last of it the acid is gone
/// too.
pub open spec fn corrode(f: Frame, b: Board, x: int, y: int) -> Board {
    let c = b.at(x, y);
    let d = b.find(x, y, Kind::Corrodible, 0);
    let budget = if c.rb < f.config.acid_budget {
        c.rb
    } else {
        f.config.acid_budget
    };
    if d < 8 {
        let eaten = b.put(x + spec_dx(d), y + spec_dy(d), Cell::spec_empty());
        if budget <= 1 {
            eaten.put(x, y, Cell::spec_empty())
        } else {
            eaten.put(x, y, Cell { species: Species::Acid, ra: c.ra, rb: (budget - 1) as u8 })
        }
    } else {
        b
    }
}

/// Lava: next to water it turns to stone, and the first water next to it is
/// used up.
pub open spec fn solidify(b: Board, x: int, y: int) -> Board {
    let c = b.at(x, y);
    let d = b.find(x, y, Kind::Wet, 0);
    if d < 8 {
        b.put(x + spec_dx(d), y + spec_dy(d), Cell::spec_empty()).put(
            x,
            y,
            Cell { species: Species::Stone, ra: c.ra, rb: c.rb },
        )
    } else {
        b
    }
}

/// Wood next to fungus: it counts the tick, and rots away when it has
/// counted enough.
pub open spec fn rot(f: Frame, b: Board, x: int, y: int) -> Board {
    let c = b.at(x, y);
    if c.rb >= f.config.wood_decay {
        b.put(x, y, Cell::spec_empty())
    } else {
        b.put(x, y, Cell { species: Species::Wood, ra: c.ra, rb: (c.rb + 1) as u8 })
    }
}

/// Stone: unless it stands in an arch, between stone or wall on both sides,
/// it crumbles to sand when the column on it is higher than it bears.
pub open spec fn crumble(f: Frame, b: Board, x: int, y: int) -> Board {
    let c = b.at(x, y);
    let arch = props(b.at(x - 1, y).species) && props(b.at(x + 1, y).species);
    if !arch && b.load(x, y, (f.config.stone_load + 1) as nat) > f.config.stone_load {
        b.put(x, y, Cell { species: Species::Sand, ra: c.ra, rb: c.rb })
    } else {
        b
    }
}

/// What the particle at `(x, y)` does to itself and its neighbours once it
/// has moved or stayed.
pub open spec fn react(f: Frame, b: Board, x: int, y: int, r: u32) -> Board {
    let c = b.at(x, y);
    match c.species {
        Species::Acid => corrode(f, b, x, y),
        Species::Dust | Species::Oil | Species::Gas => if b.near(x, y, Kind::Hot) {
            b.put(x, y, ignited(f, c))
        } else {
            b
        },
        Species::Wood => if b.near(x, y, Kind::Hot) {
            b.put(x, y, ignited(f, c))
        } else if b.near(x, y, Kind::Mould) {
            rot(f, b, x, y)
        } else {
            b
        },
        Species::Plant => if b.near(x, y, Kind::Hot) {
            b.put(x, y, ignited(f, c))
        } else if b.near(x, y, Kind::Wet) {
            sow(b, x, y, Kind::Vacant, Species::Plant, r)
        } else {
            b
        },
        Species::Fire => burn(f, b, x, y, r),
        Species::Fungus => if spec_chance(r, f.config.fungus_spread) {
            sow(b, x, y, Kind::Host, Species::Fungus, r)
        } else {
            b
        },
        Species::Seed => if fertile(b.at(x, y + 1).species) {
            b.put(x, y, Cell { species: Species::Plant, ra: c.ra, rb: c.rb })
        } else {
            b
        },
        Species::Water => if b.near(x, y, Kind::Frozen) && spec_chance(r, f.config.ice_freeze) {
            b.put(x, y, Cell { species: Species::Ice, ra: c.ra, rb: c.rb })
        } else {
            b
        },
        Species::Lava => solidify(b, x, y),
        Species::Ice => if b.near(x, y, Kind::Hot) {
            b.put(x, y, Cell { species: Species::Water, ra: c.ra, rb: c.rb })
        } else {
            b
        },
        Species::Stone => crumble(f, b, x, y),
        _ => b,
    }
}

/// Whether a cloner with this cell is bound: its byte names a species that a
/// cloner binds to.
pub open spec fn bound(c: Cell) -> bool {
    Kind::Foreign.spec_holds(Species::spec_from_code(c.ra))
}

/// Cloner: unbound, it binds to the first species next to it that is
/// neither empty nor cloner. Bound, it puts a copy of that species into
/// one empty cell next to it.
pub open spec fn clone_turn(b: Board, x: int, y: int, r: u32) -> Board {
    let c = b.at(x, y);
    if bound(c) {
        sow(b, x, y, Kind::Vacant, Species::spec_from_code(c.ra), r)
    } else {
        let d = b.find(x, y, Kind::Foreign, 0);
        if d < 8 {
            b.put(
                x,
                y,
                Cell {
                    species: Species::Cloner,
                    ra: b.at(x + spec_dx(d), y + spec_dy(d)).species.spec_code(),
                    rb: c.rb,
                },
            )
        } else {
            b
        }
    }
}

/// Mite: with wood or plant next to it, and luck, it eats that. Else it
/// changes places with a neighbour that it draws by weight among dust, ice
/// and empty cells; with none of them around it stays.
pub open spec fn mite_turn(f: Frame, b: Board, x: int, y: int, r: u32) -> Board {
    let d = b.find(x, y, Kind::Fodder, spec_pick(r));
    let total = b.lure_below(x, y, 8);
    if d < 8 && spec_chance(r, f.config.mite_feed) {
        b.put(x + spec_dx(d), y + spec_dy(d), Cell::spec_empty())
    } else if total == 0 {
        b
    } else {
        let w = b.wander(x, y, ticket(r, total), 0);
        if w < 8 {
            b.relocate(x, y, x + spec_dx(w), y + spec_dy(w))
        } else {
            b
        }
    }
}

/// Rocket: it flies one cell in its direction if that cell is empty, stays
/// before a wall or the edge, and bursts on anything else: the disc around
/// it fills with copies of what it hit, and the rocket is gone.
pub open spec fn rocket_turn(f: Frame, b: Board, x: int, y: int) -> Board {
    let d = b.at(x, y).rb % 8;
    let nx = x + spec_dx(d);
    let ny = y + spec_dy(d);
    let target = b.at(nx, ny).species;
    if !b.inside(nx, ny) || target == Species::Wall {
        b
    } else if target == Species::Empty {
        b.relocate(x, y, nx, ny)
    } else {
        b.stamp(f.seed, x, y, f.config.blast_radius as int, target).put(x, y, Cell::spec_empty())
    }
}

/// The turn of the cell at `(x, y)`. A place outside the grid, a cell
/// already written in this tick, an empty cell and a wall have none. A
/// cloner, a mite and a rocket follow their own rules; every other particle
/// moves by its class and then reacts at the place where it is.
pub open spec fn turn(f: Frame, b: Board, x: int, y: int) -> Board {
    if !b.inside(x, y) || b.moved[y][x] {
        b
    } else {
        let c = b.cells[y][x];
        let r = spec_noise(f.seed, x, y);
        match c.species {
            Species::Empty | Species::Wall => b,
            Species::Cloner => clone_turn(b, x, y, r),
            Species::Mite => mite_turn(f, b, x, y, r),
            Species::Rocket => rocket_turn(f, b, x, y),
            _ => {
                let to = dest(f, b, x, y);
                react(f, b.relocate(x, y, to.0, to.1), to.0, to.1, r)
            },
        }
    }
}

impl Universe {
    /// The horizontal direction that a particle tries first.
    pub(crate) fn lean(&self) -> (lean: i32)
        ensures
            lean == self@.frame.lean(),
    {
        if self.ticks() % 2 == 1 {
            -1
        } else {
            1
        }
    }

    /// Exchanges the cells at `(x, y)` and `(nx, ny)` and marks both; does
    /// nothing if the two places are one or if either is outside the grid.
    pub(crate) fn relocate(&mut self, x: i32, y: i32, nx: i32, ny: i32)
        requires
            old(self).wf(),
        ensures
            final(self).wf(),
            final(self)@ == old(self)@.with(
                old(self)@.board.relocate(x as int, y as int, nx as int, ny as int),
            ),
    {
        if (nx == x && ny == y) || !self.contains(x, y) || !self.contains(nx, ny) {
            return ;
        }
        let here = self.get_cell(x, y);
        let there = self.get_cell(nx, ny);
        self.put(nx, ny, here);
        self.put(x, y, there);
    }

    /// Where the particle at `(x, y)` goes by its class.
    pub(crate) fn dest(&self, x: i32, y: i32) -> (to: (i32, i32))
        requires
            self.wf(),
            self@.board.inside(x as int, y as int),
        ensures
            (to.0 as int, to.1 as int) == dest(self@.frame, self@.board, x as int, y as int),
            self@.board.inside(to.0 as int, to.1 as int),
    {
        let s = self.get_cell(x, y).species;
        let lean = self.lean();
        match s.class() {
            Class::Granular => {
                if self.open_to(s, x, y + 1) {
                    (x, y + 1)
                } else if self.open_to(s, x + lean, y + 1) {
                    (x + lean, y + 1)
                } else if self.open_to(s, x - lean, y + 1) {
                    (x - lean, y + 1)
                } else {
                    (x, y)
                }
            },
            Class::Liquid => self.fluid_dest(x, y, 1),
            Class::Gas => self.fluid_dest(x, y, -1),
            _ => (x, y),
        }
    }

    /// Where the liquid (`dy` = 1) or gas (`dy` = -1) at `(x, y)` goes.
    pub(crate) fn fluid_dest(&self, x: i32, y: i32, dy: i32) -> (to: (i32, i32))
        requires
            self.wf(),
            self@.board.inside(x as int, y as int),
            dy == 1 || dy == -1,
        ensures
            (to.0 as int, to.1 as int) == fluid_dest(
                self@.frame,
                self@.board,
                x as int,
                y as int,
                dy as int,
            ),
            self@.board.inside(to.0 as int, to.1 as int),
    {
        if self.vacant(x, y + dy) {
            (x, y + dy)
        } else {
            let lean = self.lean();
            let reach = self.config().spread;
            let ahead = self.slide(x, y, lean, reach);
            if ahead != x {
                (ahead, y)
            } else {
                (self.slide(x, y, -lean, reach), y)
            }
        }
    }

    /// Puts a fresh particle of `species` into the first neighbour of
    /// `(x, y)` of a species in `kind`, if there is one.
    pub(crate) fn sow(&mut self, x: i32, y: i32, kind: Kind, species: Species, r: u32)
        requires
            old(self).wf(),
        ensures
            final(self).wf(),
            final(self)@ == old(self)@.with(
                sow(old(self)@.board, x as int, y as int, kind, species, r),
            ),
    {
        let d = self.find(x, y, kind, pick(r));
        if d < 8 {
            match self.toward(x, y, d) {
                Some(p) => {
                    self.put(p.0, p.1, fresh(species, r));
                },
                None => {},
            }
        }
    }

    /// The rule of fire.
    pub(crate) fn burn(&mut self, x: i32, y: i32, r: u32)
        requires
            old(self).wf(),
        ensures
            final(self).wf(),
            final(self)@ == old(self)@.with(
                burn(old(self)@.frame, old(self)@.board, x as int, y as int, r),
            ),
    {
        let c = self.get_cell(x, y);
        let longest = self.config().fire_lifetime;
        let life: u8 = if c.ra < longest {
            c.ra
        } else {
            longest
        };
        if self.near(x, y, Kind::Wet) {
            self.put(x, y, Cell::empty());
        } else if life <= 1 || !self.near(x, y, Kind::Fuel) {
            let left = if c.rb != 0 {
                fresh(Species::Gas, r)
            } else {
                Cell::empty()
            };
            self.put(x, y, left);
        } else {
            self.put(x, y, Cell { species: Species::Fire, ra: life - 1, rb: c.rb });
        }
    }

    /// The rule of acid.
    pub(crate) fn corrode(&mut self, x: i32, y: i32)
        requires
            old(self).wf(),
        ensures
            final(self).wf(),
            final(self)@ == old(self)@.with(
                corrode(old(self)@.frame, old(self)@.board, x as int, y as int),
            ),
    {
        let c = self.get_cell(x, y);
        let d = self.find(x, y, Kind::Corrodible, 0);
        let most = self.config().acid_budget;
        let budget: u8 = if c.rb < most {
            c.rb
        } else {
            most
        };
        if d < 8 {
            match self.toward(x, y, d) {
                Some(p) => {
                    self.put(p.0, p.1, Cell::empty());
                    if budget <= 1 {
                        self.put(x, y, Cell::empty());
                    } else {
                        self.put(x, y, Cell { species: Species::Acid, ra: c.ra, rb: budget - 1 });
                    }
                },
                None => {},
            }
        }
    }

    /// The rule of lava.
    pub(crate) fn solidify(&mut self, x: i32, y: i32)
        requires
            old(self).wf(),
        ensures
            final(self).wf(),
            final(self)@ == old(self)@.with(solidify(old(self)@.board, x as int, y as int)),
    {
        let c = self.get_cell(x, y);
        let d = self.find(x, y, Kind::Wet, 0);
        if d < 8 {
            match self.toward(x, y, d) {
                Some(p) => {
                    self.put(p.0, p.1, Cell::empty());
                    self.put(x, y, Cell { species: Species::Stone, ra: c.ra, rb: c.rb });
                },
                None => {},
            }
        }
    }

    /// The rule of wood next to fungus.
    pub(crate) fn rot(&mut self, x: i32, y: i32)
        requires
            old(self).wf(),
        ensures
            final(self).wf(),
            final(self)@ == old(self)@.with(
                rot(old(self)@.frame, old(self)@.board, x as int, y as int),
            ),
    {
        let c = self.get_cell(x, y);
        if c.rb >= self.config().wood_decay {
            self.put(x, y, Cell::empty());
        } else {
            self.put(x, y, Cell { species: Species::Wood, ra: c.ra, rb: c.rb + 1 });
        }
    }

    /// The rule of stone.
    pub(crate) fn crumble(&mut self, x: i32, y: i32)
        requires
            old(self).wf(),
            old(self)@.board.inside(x as int, y as int),
        ensures
            final(self).wf(),
            final(self)@ == old(self)@.with(
                crumble(old(self)@.frame, old(self)@.board, x as int, y as int),
            ),
    {
        let c = self.get_cell(x, y);
        let left = self.get_cell(x - 1, y).species;
        let right = self.get_cell(x + 1, y).species;
        let arch = (left == Species::Stone || left == Species::Wall) && (right == Species::Stone
            || right == Species::Wall);
        let bears = self.config().stone_load as u16;
        if !arch && self.load(x, y, bears + 1) > bears {
            self.put(x, y, Cell { species: Species::Sand, ra: c.ra, rb: c.rb });
        }
    }

    /// What the particle at `(x, y)` does once it has moved or stayed.
    pub(crate) fn react(&mut self, x: i32, y: i32, r: u32)
        requires
            old(self).wf(),
            old(self)@.board.inside(x as int, y as int),
        ensures
            final(self).wf(),
            final(self)@ == old(self)@.with(
                react(old(self)@.frame, old(self)@.board, x as int, y as int, r),
            ),
    {
        let c = self.get_cell(x, y);
        let config = self.config();
        let alight = Cell {
            species: Species::Fire,
            ra: config.fire_lifetime,
            rb: if c.species == Species::Oil {
                1
            } else {
                0
            },
        };
        match c.species {
            Species::Acid => self.corrode(x, y),
            Species::Dust | Species::Oil | Species::Gas => {
                if self.near(x, y, Kind::Hot) {
                    self.put(x, y, alight);
                }
            },
            Species::Wood => {
                if self.near(x, y, Kind::Hot) {
                    self.put(x, y, alight);
                } else if self.near(x, y, Kind::Mould) {
                    self.rot(x, y);
                }
            },
            Species::Plant => {
                if self.near(x, y, Kind::Hot) {
                    self.put(x, y, alight);
                } else if self.near(x, y, Kind::Wet) {
                    self.sow(x, y, Kind::Vacant, Species::Plant, r);
                }
            },
            Species::Fire => self.burn(x, y, r),
            Species::Fungus => {
                if chance(r, config.fungus_spread) {
                    self.sow(x, y, Kind::Host, Species::Fungus, r);
                }
            },
            Species::Seed => {
                let under = self.get_cell(x, y + 1).species;
                if under == Species::Sand || under == Species::Plant || under == Species::Fungus {
                    self.put(x, y, Cell { species: Species::Plant, ra: c.ra, rb: c.rb });
                }
            },
            Species::Water => {
                if self.near(x, y, Kind::Frozen) && chance(r, config.ice_freeze) {
                    self.put(x, y, Cell { species: Species::Ice, ra: c.ra, rb: c.rb });
                }
            },
            Species::Lava => self.solidify(x, y),
            Species::Ice => {
                if self.near(x, y, Kind::Hot) {
                    self.put(x, y, Cell { species: Species::Water, ra: c.ra, rb: c.rb });
                }
            },
            Species::Stone => self.crumble(x, y),
            _ => {},
        }
    }

    /// The rule of the cloner.
    pub(crate) fn clone_turn(&mut self, x: i32, y: i32, r: u32)
        requires
            old(self).wf(),
        ensures
            final(self).wf(),
            final(self)@ == old(self)@.with(clone_turn(old(self)@.board, x as int, y as int, r)),
    {
        let c = self.get_cell(x, y);
        let source = Species::from_code(c.ra);
        if Kind::Foreign.holds(source) {
            self.sow(x, y, Kind::Vacant, source, r);
        } else {
            let d = self.find(x, y, Kind::Foreign, 0);
            if d < 8 {
                match self.toward(x, y, d) {
                    Some(p) => {
                        let code = self.get_cell(p.0, p.1).species.code();
                        self.put(x, y, Cell { species: Species::Cloner, ra: code, rb: c.rb });
                    },
                    None => {},
                }
            }
        }
    }

    /// The rule of the mite.
    pub(crate) fn mite_turn(&mut self, x: i32, y: i32, r: u32)
        requires
            old(self).wf(),
        ensures
            final(self).wf(),
            final(self)@ == old(self)@.with(
                mite_turn(old(self)@.frame, old(self)@.board, x as int, y as int, r),
            ),
    {
        let d = self.find(x, y, Kind::Fodder, pick(r));
        let total = self.lure_total(x, y);
        if d < 8 && chance(r, self.config().mite_feed) {
            match self.toward(x, y, d) {
                Some(p) => {
                    self.put(p.0, p.1, Cell::empty());
                },
                None => {},
            }
        } else if total != 0 {
            let t: u8 = ((r / 0x1_0000) % (total as u32)) as u8;
            let w = self.wander(x, y, t);
            if w < 8 {
                match self.toward(x, y, w) {
                    Some(p) => {
                        self.relocate(x, y, p.0, p.1);
                    },
                    None => {
                        proof {
                            lemma_wander_inside(self@.board, x as int, y as int, t as nat, 0);
                        }
                    },
                }
            }
        }
    }

    /// The rule of the rocket.
    pub(crate) fn rocket_turn(&mut self, x: i32, y: i32)
        requires
            old(self).wf(),
        ensures
            final(self).wf(),
            final(self)@ == old(self)@.with(
                rocket_turn(old(self)@.frame, old(self)@.board, x as int, y as int),
            ),
    {
        let d = self.get_cell(x, y).rb % 8;
        match self.toward(x, y, d) {
            Some(p) => {
                let target = self.get_cell(p.0, p.1).species;
                if target == Species::Wall {
                } else if target == Species::Empty {
                    self.relocate(x, y, p.0, p.1);
                } else {
                    let seed = self.seed();
                    let radius = self.config().blast_radius as i32;
                    self.stamp(seed, x, y, radius, target);
                    self.put(x, y, Cell::empty());
                }
            },
            None => {},
        }
    }

    /// Gives the cell at `(x, y)` its turn.
    pub fn turn(&mut self, x: i32, y: i32)
        requires
            old(self).wf(),
        ensures
            final(self).wf(),
            final(self)@ == old(self)@.with(
                turn(old(self)@.frame, old(self)@.board, x as int, y as int),
            ),
    {
        if !self.contains(x, y) || self.is_marked(x, y) {
            return ;
        }
        let c = self.get_cell(x, y);
        let r = noise(self.seed(), x as u32, y as u32);
        match c.species {
            Species::Empty | Species::Wall => {},
            Species::Cloner => self.clone_turn(x, y, r),
            Species::Mite => self.mite_turn(x, y, r),
            Species::Rocket => self.rocket_turn(x, y),
            _ => {
                let to = self.dest(x, y);
                self.relocate(x, y, to.0, to.1);
                self.react(to.0, to.1, r);
            },
        }
    }
}

/// A ticket falls to a direction whose place is inside the grid.
pub proof fn lemma_wander_inside(b: Board, x: int, y: int, t: nat, from: u8)
    ensures
        b.wander(x, y, t, from) < 8 ==> b.inside(
            x + spec_dx(b.wander(x, y, t, from)),
            y + spec_dy(b.wander(x, y, t, from)),
        ),
    decreases 8 - from,
{
    if from < 8 && t >= b.lure(x, y, from) {
        lemma_wander_inside(b, x, y, (t - b.lure(x, y, from)) as nat, (from + 1) as u8);
    }
}

} // verus!
