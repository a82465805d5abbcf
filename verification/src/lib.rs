//! Score keeping for the card game Nertz.
//!
//! Players are put on a roster, a game is started, and scores are entered
//! round by round. One cell of the score sheet at a time is open for input;
//! entering a score moves that cursor on, and completes and opens rounds as
//! it goes.
//!
//! - [`game`] and [`sheet`] define the game as a mathematical object and every
//!   command as a function on it; [`laws`] proves what holds of them.
//! - [`state`] is the game in memory, [`app`] the controller that takes the
//!   commands, [`saved`] what is kept between sessions.
//! - [`player`], [`score`], [`round`] and [`grid`] are the parts the state is
//!   made of; [`entry`] reads a typed score; [`error`] names the refusals.

pub mod app;
pub mod entry;
pub mod error;
pub mod game;
pub mod grid;
pub mod laws;
pub mod player;
pub mod round;
pub mod saved;
pub mod score;
pub mod sheet;
pub mod state;
