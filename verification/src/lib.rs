pub mod board;
pub mod game;
pub mod player;
pub mod render;
pub mod rng;
pub mod vector2;
