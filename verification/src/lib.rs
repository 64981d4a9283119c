//! Core of a side-scrolling obstacle-avoidance game: the session state
//! machine, spawn timers, collision and scoring rules, and the entity
//! lifecycle, modelled over integer positions, velocities and
//! millisecond-grained time.
//!
//! The surrounding presentation layer (window, sprites, physics engine)
//! is an external collaborator: it reports per-tick elapsed time, the
//! actor's vertical motion, and which bodies touch or overlap the actor,
//! and reads the resulting state back for rendering.

pub mod entity;
pub mod laws;
pub mod model;
mod rng;
pub mod state;
pub mod world;
