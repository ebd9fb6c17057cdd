//! Conway's Game of Life on a finite, non-wrapping board.
//!
//! The grid update rule and the cursor-driven editing interaction are
//! verified; terminal rendering and key input live outside the library.

pub mod editor;
pub mod grid;
pub mod keys;
pub mod sim;
