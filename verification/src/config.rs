//! The tunable constants of the rules.

use vstd::prelude::*;

verus! {

/// The constants that the rules leave open. Odds are out of 256: a rule with
/// odds `p` fires on a draw whose low byte is below `p`.
#[derive(Clone, Copy, Debug, PartialEq, Eq, Structural)]
pub struct Config {
    /// The longest a fire burns, in ticks. A larger lifetime byte counts as
    /// this.
    pub fire_lifetime: u8,
    /// The most neighbours one acid particle eats. A larger budget byte counts
    /// as this.
    pub acid_budget: u8,
    /// How many cells a liquid or gas slides sideways in one tick, at most.
    pub spread: u8,
    /// The radius of the disc that a bursting rocket fills.
    pub blast_radius: u8,
    /// The height of the column above a stone that it bears without an arch.
    pub stone_load: u8,
    /// How many ticks wood stands next to fungus before it rots away.
    pub wood_decay: u8,
    /// The odds that a fungus cell spreads in a tick.
    pub fungus_spread: u8,
    /// The odds that a mite eats the wood or plant next to it.
    pub mite_feed: u8,
    /// The odds that water next to ice freezes in a tick.
    pub ice_freeze: u8,
}

impl Config {
    /// The constants that a universe starts with unless told otherwise.
    pub open spec fn spec_standard() -> Config {
        Config {
            fire_lifetime: 40,
            acid_budget: 10,
            spread: 3,
            blast_radius: 4,
            stone_load: 6,
            wood_decay: 60,
            fungus_spread: 12,
            mite_feed: 64,
            ice_freeze: 16,
        }
    }

    /// The constants that a universe starts with unless told otherwise.
    #[verifier::when_used_as_spec(spec_standard)]
    pub fn standard() -> (config: Config)
        ensures
            config == Config::spec_standard(),
    {
        Config {
            fire_lifetime: 40,
            acid_budget: 10,
            spread: 3,
            blast_radius: 4,
            stone_load: 6,
            wood_decay: 60,
            fungus_spread: 12,
            mite_feed: 64,
            ice_freeze: 16,
        }
    }
}

impl Default for Config {
    /// The standard constants.
    fn default() -> (config: Config)
        ensures
            config == Config::spec_standard(),
    {
        Config::standard()
    }
}

} // verus!
