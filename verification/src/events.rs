//! What goes into the board and what comes out of it: requests to set up a
//! position or to make a move, and notices of the pieces that were put on the
//! board and of those that changed their square.

use vstd::prelude::*;
use crate::chess_move::Move;
use crate::fen::Fen;
use crate::piece::{PieceColor, PieceType};
use crate::position::BoardPosition;

verus! {

/// The board is to be set up as a board description says.
#[derive(Debug, Clone, Copy)]
pub struct ResetBoardEvent {
    pub fen: Fen,
}

impl ResetBoardEvent {
    /// The request to set the board up as `fen` says.
    pub fn new(fen: Fen) -> (event: Self)
        ensures
            event.fen == fen,
    {
        ResetBoardEvent { fen }
    }

    /// The board description to set the board up from.
    pub fn fen(&self) -> (fen: &Fen)
        ensures
            *fen == self.fen,
    {
        &self.fen
    }
}

/// A piece has gone from one square to another.
#[derive(Clone, Copy, Debug, PartialEq, Eq, Structural)]
pub struct PieceMoveEvent {
    pub from: BoardPosition,
    pub to: BoardPosition,
}

impl PieceMoveEvent {
    /// The notice that a piece has gone from `from` to `to`.
    pub fn new(from: BoardPosition, to: BoardPosition) -> (event: Self)
        ensures
            event == (PieceMoveEvent { from, to }),
    {
        PieceMoveEvent { from, to }
    }

    /// The square the piece left.
    pub fn from(&self) -> (square: &BoardPosition)
        ensures
            *square == self.from,
    {
        &self.from
    }

    /// The square the piece went to.
    pub fn to(&self) -> (square: &BoardPosition)
        ensures
            *square == self.to,
    {
        &self.to
    }
}

/// A move is asked for.
#[derive(Clone, Copy, Debug, PartialEq, Eq, Structural)]
pub struct RequestMoveEvent {
    pub piece_move: Move,
}

impl RequestMoveEvent {
    /// The request to make the move `piece_move`.
    pub fn new(piece_move: Move) -> (event: Self)
        ensures
            event == (RequestMoveEvent { piece_move }),
    {
        RequestMoveEvent { piece_move }
    }

    /// The move that is asked for.
    pub fn piece_move(&self) -> (piece_move: &Move)
        ensures
            *piece_move == self.piece_move,
    {
        &self.piece_move
    }
}

/// A piece has been put on the board.
#[derive(Clone, Copy, Debug, PartialEq, Eq, Structural)]
pub struct PieceCreateEvent {
    pub position: BoardPosition,
    pub piece_type: PieceType,
    pub color: PieceColor,
}

impl PieceCreateEvent {
    /// The square the piece was put on.
    pub fn position(&self) -> (square: &BoardPosition)
        ensures
            *square == self.position,
    {
        &self.position
    }

    /// The kind of the piece.
    pub fn piece_type(&self) -> (kind: &PieceType)
        ensures
            *kind == self.piece_type,
    {
        &self.piece_type
    }

    /// The colour of the piece.
    pub fn color(&self) -> (color: &PieceColor)
        ensures
            *color == self.color,
    {
        &self.color
    }
}

} // verus!
