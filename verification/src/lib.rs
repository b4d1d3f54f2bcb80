//! Setup phase of a grid-based naval combat game: a fixed 10x10 board per
//! player, a catalog of five ship kinds with fixed lengths, coordinate
//! parsing, fully validated ship placement, and two rendered views of the
//! board (the owner's, which shows ships, and the opponent's, which hides
//! them).

pub mod cell;
pub mod coord;
pub mod error;
pub mod game;
pub mod player;
pub mod render;
pub mod ship_type;

pub use cell::CellState;
pub use ship_type::ShipType;
