pub mod game;
pub mod read;
pub mod state;
