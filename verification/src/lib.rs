//! A two-player tic-tac-toe game: the board, the move parser and the
//! turn-taking state machine, each with a proved contract.

pub mod board;
pub mod game;
pub mod play;
