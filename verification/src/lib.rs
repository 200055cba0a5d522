//! The core of a match server for a two-player grid combat game.
//!
//! The `matchmaking` module pairs waiting players whose ratings lie within
//! a window that widens while they wait. The `engine` module holds every
//! running match and routes commands and clock ticks to it; `world` is one
//! match and the handlers of its phase pipeline, `state` the same match as
//! a mathematical value, and `invariants` and `laws` what is proved of
//! both. The `session` module is the fan-out: what a connected player
//! sends, and which responses it gets to see. `grid`, `catalog` and
//! `protocol` hold the board, the maps and animals, and the messages.
//! `auth`, `clans` and `players` hold the rules that the directory
//! services of the server apply. `chance` and `clock` are the random draws
//! and the wall clock: with the pattern matching of `auth`, they are what
//! the library takes on trust.

pub mod auth;
pub mod catalog;
pub mod chance;
pub mod clans;
pub mod clock;
pub mod engine;
pub mod grid;
pub mod invariants;
pub mod laws;
pub mod matchmaking;
pub mod players;
pub mod protocol;
pub mod seqs;
pub mod session;
pub mod state;
pub mod world;
