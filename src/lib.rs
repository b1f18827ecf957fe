//! A chess rules engine: board representation, pseudo-legal and legal move
//! generation, move application, check / checkmate / stalemate detection,
//! position import from FEN text, and a simple match clock.

pub mod board;
pub mod export;
pub mod client;
pub mod clock;
pub mod fen;
pub mod game;
pub mod game_modes;
pub mod move_history;
pub mod position;
pub mod rules;
pub mod special_moves;
