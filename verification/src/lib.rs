//! A chess rules engine: board positions, pieces and their move geometry,
//! castling rights, move legality, check, checkmate and stalemate detection,
//! and a reader for Forsyth–Edwards Notation.
//!
//! Every function is verified against the contract it carries. The contracts
//! speak of mathematical models: a board is a map from squares to pieces, a
//! list of moves is a sequence in board-scan order.

pub mod castling_rights;
pub mod chess_board;
pub mod chess_move;
pub mod events;
pub mod fen;
pub mod laws;
pub mod piece;
pub mod position;
pub mod rules;
