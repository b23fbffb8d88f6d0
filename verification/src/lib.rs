//! A deterministic Game-of-Life engine on a finite rectangular grid.
//!
//! The grid has a clamped (finite-plane) topology: cells on an edge simply
//! have fewer neighbors, there is no wraparound. `model` holds the
//! mathematical description of grids and of the transition rule, `game` the
//! executable engine, and `laws` the proved general properties of the rule.

pub mod game;
pub mod laws;
pub mod model;

pub use game::EmptyInputError;
pub use game::LifeGame;
