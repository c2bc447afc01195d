//! Games of chess between pluggable agents, and the tally of a series of
//! them.
//!
//! The rules of the game come from the `chess` crate and the random numbers
//! from `rand`; what this crate adds is the way an agent turns a set of legal
//! moves into one move, the loop that drives a game to its result, and the
//! scoring of a series of games.

pub mod agent;
pub mod board;
pub mod chance;
pub mod engine;
pub mod game;
pub mod rankers;
pub mod simulator;
pub mod tournament;

pub use agent::{Agent, RandomAgent, RankMove};
pub use board::{Board, Color, Move, Piece};
pub use game::{Action, GameResult, GameState};
pub use rankers::{MoveBackward, MoveForward};
pub use simulator::{play_game, play_on};
pub use tournament::{play_n_games, Tally};
