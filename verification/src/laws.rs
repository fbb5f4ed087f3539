//! What follows from the rules.
//!
//! Each law here is proved from the definitions of `rules` and `tick` alone,
//! so it holds of the executable grid, whose every step is proved to compute
//! those definitions. The laws, by module:
//!
//! - `shape`: a tick keeps the grid a rectangle of its size
//!   (`tick_keeps_shape`), every cell is one of the species
//!   (`species_are_closed`), and a tick does not ask what was marked before
//!   it (`marks_do_not_matter`).
//! - `walls`: no tick changes a wall (`walls_are_indestructible`).
//! - `mass`: without the species that breed, no tick creates a particle
//!   (`tick_creates_no_mass`, `mass_never_grows`).
//! - `gravity`: a grain of sand falls a row per tick until it rests, and
//!   rests within as many ticks as the grid has rows (`sand_falls`,
//!   `sand_settles`, `grain_rolls`, `grain_rests`).
//! - `fire`: a fire without fuel is out after one tick (`lone_fire_dies`,
//!   `unfed_fire_dies`), a fire with fuel burns down and is out before its
//!   lifetime is over (`fire_burns_down`, `fire_goes_out`), and water puts
//!   fire out (`doused_fire_goes_out`, `water_puts_out_fire`).
//! - `acid`: the appetite of acid never grows (`tick_feeds_no_acid`,
//!   `hunger_never_grows`) and shrinks with every bite (`every_bite_costs`),
//!   and an acid that eats its way through wood is gone after as many ticks
//!   as its appetite counts (`acid_eats_its_way`, `acid_spends_itself`).
//! - `brush`: a brush of radius zero paints exactly one cell
//!   (`point_brush_paints_one_cell`, `point_brush_spares`), and a brush of
//!   any radius exactly its disc (`brush_covers_its_disc`).
//!
//! `scan` holds what the proofs share about the order of the turns.

pub mod acid;
pub mod brush;
pub mod fire;
pub mod gravity;
pub mod mass;
pub mod scan;
pub mod shape;
pub mod walls;
