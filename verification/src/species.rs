//! Materials, their physical classes, and the cell that holds one particle.

use vstd::prelude::*;

verus! {

/// The closed set of materials a cell may hold.
#[derive(Clone, Copy, Debug, PartialEq, Eq, Structural, Hash)]
pub enum Species {
    /// The void. Painting it erases.
    Empty,
    /// Indestructible, blocks all movement.
    Wall,
    /// Falls and piles; sinks through lighter liquids.
    Sand,
    /// Flows down and sideways; puts out fire.
    Water,
    /// Stands still; holds in an arch and crumbles to sand under load.
    Stone,
    /// Melts next to fire or lava; freezes water that touches it.
    Ice,
    /// Rises; burns.
    Gas,
    /// Adopts the first foreign material it touches and emits copies of it.
    Cloner,
    /// Wanders, eats wood and plant.
    Mite,
    /// Burns; rots away next to fungus.
    Wood,
    /// Burns; grows into empty space when it touches water.
    Plant,
    /// Spreads over wood, plant and empty space.
    Fungus,
    /// Becomes a plant when it rests on sand, plant or fungus.
    Seed,
    /// Short-lived; sets its burnable neighbours alight.
    Fire,
    /// A heavy liquid that sets things alight and turns to stone in water.
    Lava,
    /// A liquid that eats its neighbours until its budget is spent.
    Acid,
    /// Falls like sand and burns.
    Dust,
    /// A burnable liquid; its fire leaves smoke behind.
    Oil,
    /// Flies straight and bursts into copies of what it hits.
    Rocket,
}

/// How a material moves.
#[derive(Clone, Copy, Debug, PartialEq, Eq, Structural)]
pub enum Class {
    /// Nothing there.
    Void,
    /// Never moves of its own accord.
    Static,
    /// Falls straight or diagonally down.
    Granular,
    /// Falls, else slides sideways.
    Liquid,
    /// Rises, else slides sideways.
    Gas,
    /// Stays in place and burns down.
    Energy,
    /// Follows a rule of its own.
    Special,
}

/// A set of species that a rule looks for among the neighbours of a cell.
#[derive(Clone, Copy, Debug, PartialEq, Eq, Structural)]
pub enum Kind {
    /// Empty.
    Vacant,
    /// Water.
    Wet,
    /// Ice.
    Frozen,
    /// Fungus.
    Mould,
    /// Fire or lava: what ignites and melts.
    Hot,
    /// Wood, plant, oil, gas, dust: what fire feeds on.
    Fuel,
    /// Anything but empty and wall: what acid eats.
    Corrodible,
    /// Wood or plant: what a mite eats.
    Fodder,
    /// Wood, plant or empty: what fungus spreads into.
    Host,
    /// Anything but empty and cloner: what a cloner binds to.
    Foreign,
}

/// The number of species; every species code is below it.
pub const SPECIES_COUNT: u8 = 19;

impl Species {
    /// The byte that stands for this species, from 0 for `Empty` to 18 for
    /// `Rocket`, in the order of the declaration.
    pub open spec fn spec_code(self) -> u8 {
        match self {
            Species::Empty => 0,
            Species::Wall => 1,
            Species::Sand => 2,
            Species::Water => 3,
            Species::Stone => 4,
            Species::Ice => 5,
            Species::Gas => 6,
            Species::Cloner => 7,
            Species::Mite => 8,
            Species::Wood => 9,
            Species::Plant => 10,
            Species::Fungus => 11,
            Species::Seed => 12,
            Species::Fire => 13,
            Species::Lava => 14,
            Species::Acid => 15,
            Species::Dust => 16,
            Species::Oil => 17,
            Species::Rocket => 18,
        }
    }

    /// The species that a byte stands for; a byte that stands for none reads
    /// as `Empty`.
    pub open spec fn spec_from_code(code: u8) -> Species {
        if code == 1 {
            Species::Wall
        } else if code == 2 {
            Species::Sand
        } else if code == 3 {
            Species::Water
        } else if code == 4 {
            Species::Stone
        } else if code == 5 {
            Species::Ice
        } else if code == 6 {
            Species::Gas
        } else if code == 7 {
            Species::Cloner
        } else if code == 8 {
            Species::Mite
        } else if code == 9 {
            Species::Wood
        } else if code == 10 {
            Species::Plant
        } else if code == 11 {
            Species::Fungus
        } else if code == 12 {
            Species::Seed
        } else if code == 13 {
            Species::Fire
        } else if code == 14 {
            Species::Lava
        } else if code == 15 {
            Species::Acid
        } else if code == 16 {
            Species::Dust
        } else if code == 17 {
            Species::Oil
        } else if code == 18 {
            Species::Rocket
        } else {
            Species::Empty
        }
    }

    /// The physical class of this species.
    pub open spec fn spec_class(self) -> Class {
        match self {
            Species::Empty => Class::Void,
            Species::Sand | Species::Dust => Class::Granular,
            Species::Water | Species::Lava | Species::Acid | Species::Oil => Class::Liquid,
            Species::Gas => Class::Gas,
            Species::Fire => Class::Energy,
            Species::Cloner | Species::Mite | Species::Rocket => Class::Special,
            Species::Wall | Species::Stone | Species::Ice | Species::Wood | Species::Plant
            | Species::Fungus | Species::Seed => Class::Static,
        }
    }

    /// How heavy this species is. A grain sinks through a liquid that is
    /// lighter than itself.
    pub open spec fn spec_density(self) -> u8 {
        match self {
            Species::Empty => 0,
            Species::Gas => 1,
            Species::Oil => 2,
            Species::Water | Species::Acid => 3,
            Species::Sand | Species::Dust => 4,
            Species::Lava => 5,
            _ => 6,
        }
    }

    /// Whether a particle of this species can take the place of one of
    /// `other`: the place is empty, or this is a grain and `other` a lighter
    /// liquid.
    pub open spec fn spec_displaces(self, other: Species) -> bool {
        other == Species::Empty || (self.spec_class() == Class::Granular && other.spec_class()
            == Class::Liquid && other.spec_density() < self.spec_density())
    }

    /// The weight with which a wandering mite picks a cell of this species as
    /// its next place: dust before ice before empty space, nothing else.
    pub open spec fn spec_lure(self) -> u8 {
        match self {
            Species::Dust => 4,
            Species::Ice => 2,
            Species::Empty => 1,
            _ => 0,
        }
    }

    /// The byte that stands for this species, from 0 for `Empty` to 18 for
    /// `Rocket`, in the order of the declaration.
    #[verifier::when_used_as_spec(spec_code)]
    pub fn code(self) -> (code: u8)
        ensures
            code == self.spec_code(),
            code < SPECIES_COUNT,
            Species::spec_from_code(code) == self,
    {
        match self {
            Species::Empty => 0,
            Species::Wall => 1,
            Species::Sand => 2,
            Species::Water => 3,
            Species::Stone => 4,
            Species::Ice => 5,
            Species::Gas => 6,
            Species::Cloner => 7,
            Species::Mite => 8,
            Species::Wood => 9,
            Species::Plant => 10,
            Species::Fungus => 11,
            Species::Seed => 12,
            Species::Fire => 13,
            Species::Lava => 14,
            Species::Acid => 15,
            Species::Dust => 16,
            Species::Oil => 17,
            Species::Rocket => 18,
        }
    }

    /// The species that a byte stands for; a byte that stands for none reads
    /// as `Empty`.
    #[verifier::when_used_as_spec(spec_from_code)]
    pub fn from_code(code: u8) -> (species: Species)
        ensures
            species == Species::spec_from_code(code),
            code < SPECIES_COUNT ==> species.spec_code() == code,
            code >= SPECIES_COUNT ==> species == Species::Empty,
    {
        if code == 1 {
            Species::Wall
        } else if code == 2 {
            Species::Sand
        } else if code == 3 {
            Species::Water
        } else if code == 4 {
            Species::Stone
        } else if code == 5 {
            Species::Ice
        } else if code == 6 {
            Species::Gas
        } else if code == 7 {
            Species::Cloner
        } else if code == 8 {
            Species::Mite
        } else if code == 9 {
            Species::Wood
        } else if code == 10 {
            Species::Plant
        } else if code == 11 {
            Species::Fungus
        } else if code == 12 {
            Species::Seed
        } else if code == 13 {
            Species::Fire
        } else if code == 14 {
            Species::Lava
        } else if code == 15 {
            Species::Acid
        } else if code == 16 {
            Species::Dust
        } else if code == 17 {
            Species::Oil
        } else if code == 18 {
            Species::Rocket
        } else {
            Species::Empty
        }
    }

    /// The physical class of this species.
    #[verifier::when_used_as_spec(spec_class)]
    pub fn class(self) -> (class: Class)
        ensures
            class == self.spec_class(),
    {
        match self {
            Species::Empty => Class::Void,
            Species::Sand | Species::Dust => Class::Granular,
            Species::Water | Species::Lava | Species::Acid | Species::Oil => Class::Liquid,
            Species::Gas => Class::Gas,
            Species::Fire => Class::Energy,
            Species::Cloner | Species::Mite | Species::Rocket => Class::Special,
            Species::Wall | Species::Stone | Species::Ice | Species::Wood | Species::Plant
            | Species::Fungus | Species::Seed => Class::Static,
        }
    }

    /// How heavy this species is. A grain sinks through a liquid that is
    /// lighter than itself.
    #[verifier::when_used_as_spec(spec_density)]
    pub fn density(self) -> (density: u8)
        ensures
            density == self.spec_density(),
    {
        match self {
            Species::Empty => 0,
            Species::Gas => 1,
            Species::Oil => 2,
            Species::Water | Species::Acid => 3,
            Species::Sand | Species::Dust => 4,
            Species::Lava => 5,
            _ => 6,
        }
    }

    /// Whether a particle of this species can take the place of one of
    /// `other`: the place is empty, or this is a grain and `other` a lighter
    /// liquid.
    #[verifier::when_used_as_spec(spec_displaces)]
    pub fn displaces(self, other: Species) -> (yes: bool)
        ensures
            yes == self.spec_displaces(other),
    {
        other == Species::Empty || (self.class() == Class::Granular && other.class()
            == Class::Liquid && other.density() < self.density())
    }

    /// The weight with which a wandering mite picks a cell of this species as
    /// its next place: dust before ice before empty space, nothing else.
    #[verifier::when_used_as_spec(spec_lure)]
    pub fn lure(self) -> (weight: u8)
        ensures
            weight == self.spec_lure(),
    {
        match self {
            Species::Dust => 4,
            Species::Ice => 2,
            Species::Empty => 1,
            _ => 0,
        }
    }
}

impl Kind {
    /// Whether `species` belongs to this set.
    pub open spec fn spec_holds(self, species: Species) -> bool {
        match self {
            Kind::Vacant => species == Species::Empty,
            Kind::Wet => species == Species::Water,
            Kind::Frozen => species == Species::Ice,
            Kind::Mould => species == Species::Fungus,
            Kind::Hot => species == Species::Fire || species == Species::Lava,
            Kind::Fuel => species == Species::Wood || species == Species::Plant || species
                == Species::Oil || species == Species::Gas || species == Species::Dust,
            Kind::Corrodible => species != Species::Empty && species != Species::Wall,
            Kind::Fodder => species == Species::Wood || species == Species::Plant,
            Kind::Host => species == Species::Wood || species == Species::Plant || species
                == Species::Empty,
            Kind::Foreign => species != Species::Empty && species != Species::Cloner,
        }
    }

    /// Whether `species` belongs to this set.
    #[verifier::when_used_as_spec(spec_holds)]
    pub fn holds(self, species: Species) -> (yes: bool)
        ensures
            yes == self.spec_holds(species),
    {
        match self {
            Kind::Vacant => species == Species::Empty,
            Kind::Wet => species == Species::Water,
            Kind::Frozen => species == Species::Ice,
            Kind::Mould => species == Species::Fungus,
            Kind::Hot => species == Species::Fire || species == Species::Lava,
            Kind::Fuel => species == Species::Wood || species == Species::Plant || species
                == Species::Oil || species == Species::Gas || species == Species::Dust,
            Kind::Corrodible => species != Species::Empty && species != Species::Wall,
            Kind::Fodder => species == Species::Wood || species == Species::Plant,
            Kind::Host => species == Species::Wood || species == Species::Plant || species
                == Species::Empty,
            Kind::Foreign => species != Species::Empty && species != Species::Cloner,
        }
    }
}

/// One grid slot: a material and two bytes of per-particle state.
///
/// The grid does not interpret `ra` and `rb`; each species' rule does. Fire
/// keeps its remaining lifetime in `ra` and marks smoke-leaving fire in `rb`;
/// acid keeps its corrosion budget in `rb`; wood counts its exposure to fungus
/// in `rb`; a cloner keeps the code of the species it is bound to in `ra`; a
/// rocket keeps its direction of travel in `rb`. For every other species the
/// bytes are only there to vary its colour.
#[derive(Clone, Copy, Debug, PartialEq, Eq, Structural)]
pub struct Cell {
    pub species: Species,
    pub ra: u8,
    pub rb: u8,
}

impl Cell {
    /// An empty cell.
    pub open spec fn spec_empty() -> Cell {
        Cell { species: Species::Empty, ra: 0, rb: 0 }
    }

    /// The cell that every place outside the grid reads as.
    pub open spec fn spec_wall() -> Cell {
        Cell { species: Species::Wall, ra: 0, rb: 0 }
    }

    /// An empty cell.
    #[verifier::when_used_as_spec(spec_empty)]
    pub fn empty() -> (cell: Cell)
        ensures
            cell == Cell::spec_empty(),
    {
        Cell { species: Species::Empty, ra: 0, rb: 0 }
    }

    /// The cell that every place outside the grid reads as.
    #[verifier::when_used_as_spec(spec_wall)]
    pub fn wall() -> (cell: Cell)
        ensures
            cell == Cell::spec_wall(),
    {
        Cell { species: Species::Wall, ra: 0, rb: 0 }
    }

    /// A cell of the given species and bytes.
    pub fn new(species: Species, ra: u8, rb: u8) -> (cell: Cell)
        ensures
            cell == (Cell { species, ra, rb }),
    {
        Cell { species, ra, rb }
    }
}

} // verus!
