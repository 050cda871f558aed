//! A small crafting and exploration game: places with elemental resistances,
//! items whose modifiers cost resources and grant gains, and commands that move,
//! craft and expand the world.

pub mod attack_types;
pub mod text;
pub mod hex_encoder;
pub mod rng;
pub mod the_world;
pub mod my_little_rpg_errors;
pub mod command;
pub mod generator;
