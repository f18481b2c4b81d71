//! A chess rules engine: it decides whether a proposed move is legal on the
//! current board and performs the minimal mutation a legal move implies,
//! including castling, en passant, promotion and self-check prevention.

pub mod board;
pub mod error;
pub mod game;
pub mod moves;
pub mod path;
pub mod piece;
pub mod position;
