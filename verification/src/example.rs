//! A worked example built on the engine: integer-valued game components, two
//! unit factories and three systems driving movement, attacks and damage.

pub mod components;
pub mod factories;
pub mod systems;
