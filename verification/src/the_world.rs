pub mod difficulty;
pub mod item_resource;
pub mod treasure_types;
pub mod item;
pub mod place;
pub mod game_statistics;
pub mod game;
pub mod index_specifier;
