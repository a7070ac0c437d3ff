//! Engine of a minesweeper variant played on a staggered triangular tiling,
//! where every cell has twelve neighbours.
//!
//! The rules of the game are stated over a mathematical model of the board
//! in [`rules`]; the board in [`model`] is proved to follow them, and
//! [`laws`] proves what holds of every game. [`controller`] turns pointer
//! events into commands, the session in [`model`] carries them out, and
//! [`view`] works out what is to be drawn and what lies under the pointer.
//! [`model_gamemode`] reads and writes saved layouts.
//!
//! Windows, drawing and files are left to the program that uses this
//! library: it reads the files, and is handed back what is to be drawn,
//! written or asked of the window.

pub mod clock;
pub mod config;
pub mod controller;
pub mod flood;
pub mod laws;
pub mod lemmas;
pub mod model;
pub mod model_config;
pub mod model_gamemode;
pub mod picker;
pub mod rules;
pub mod view;
pub mod view_assets;
