//! A grid-world predator/prey simulation engine.
//!
//! The engine keeps two layers of cells (animals and plants), the animals'
//! bodies (energy, chosen action, position), the end-of-generation rules and
//! the per-tick recording. Deciding which action an animal takes is done by a
//! floating-point neural network that lives outside this crate; the engine
//! hands out what an animal senses and accepts the chosen action back.

pub mod entity;
pub mod animal;
pub mod herbivore;
pub mod carnivore;
pub mod sensing;
pub mod config;
pub mod generation;
pub mod counting;
pub mod record;
pub mod map;
mod random;
pub mod laws;
pub mod simulation;
