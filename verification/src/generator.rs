pub mod place;
pub mod game;
