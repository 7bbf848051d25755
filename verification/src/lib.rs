//! A terminal arcade game in which a falling player must pass through the gaps
//! of scrolling obstacle pairs.
//!
//! This crate holds the rules of the game: the obstacle model, the time-driven
//! movement of obstacles and player, collision and scoring, the
//! menu/play/pause state machine, the layout of what is drawn, and the byte
//! format of the stored high score. Terminal output, key polling and file
//! access are left to the program that embeds it.

pub mod collision;
pub mod laws;
pub mod obstacle;
pub mod render;
pub mod score_file;
pub mod session;
pub mod state;
pub mod timer;
