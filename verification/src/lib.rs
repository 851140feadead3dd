//! A minesweeper for the terminal, as a library: the field with its mines,
//! neighbour counts, flood-fill reveal and flags; the game around it with
//! its cursor and commands; and how both are drawn.
//!
//! `board`, `flood`, `flags` and `assist` hold the mathematical model of the
//! field and of its moves, `laws` what holds of them. `field` is the field
//! itself, `mnswpr` the game, `cell`, `colors` and `render` the cells and
//! their look, `config` and `hex` what a game is set up with.

pub mod assist;
pub mod board;
pub mod cell;
pub mod chance;
pub mod colors;
pub mod config;
pub mod field;
pub mod flags;
pub mod flood;
pub mod hex;
pub mod laws;
pub mod mnswpr;
pub mod render;
pub mod text;
