//! A chess rule engine: the board model, the row-by-row position notation,
//! move legality with path obstruction, turn alternation, and the messages
//! a game session exchanges with its server.

pub mod chess_engine;
pub mod config_handler;
pub mod move_laws;
pub mod round_trip;
pub mod session;
