//! A falling-sand cellular automaton.
//!
//! A [`Universe`] is a fixed-size grid of [`Cell`]s. Each cell holds a
//! [`Species`] and two auxiliary bytes. Material is stamped onto the grid with
//! [`Universe::paint`], and [`Universe::tick`] advances the whole grid by one
//! step under the per-species rules of the `rules` module.
//!
//! Every step of the simulation is given as a mathematical function on the
//! grid (`rules::turn`, `tick::run_rows`); the executable code is proved to
//! compute exactly that function, and the module `laws` proves what follows
//! from it.

pub mod board;
pub mod config;
pub mod game;
pub mod laws;
pub mod noise;
pub mod paint;
pub mod rules;
pub mod sense;
pub mod species;
pub mod tick;
pub mod universe;

pub use board::{Board, Frame};
pub use config::Config;
pub use game::{GameView, MyGame, Stroke, Widget, WidgetView};
pub use species::{Cell, Class, Kind, Species};
pub use universe::{GridError, Universe, World};
