//! The pawn: one step ahead, two from its home rank while it has not moved,
//! and one step diagonally ahead to capture.

use vstd::prelude::*;
use crate::piece::{Piece, PieceColor, PieceType};
use crate::position::BoardPosition;

verus! {

/// The way a pawn of the given colour walks along the ranks: White towards
/// rank 0, Black towards rank 7.
pub open spec fn direction(color: PieceColor) -> int {
    match color {
        PieceColor::White => -1,
        PieceColor::Black => 1,
    }
}

/// The rank on which the pawns of the given colour start the game.
pub open spec fn home_rank(color: PieceColor) -> int {
    match color {
        PieceColor::White => 6,
        PieceColor::Black => 1,
    }
}

/// The single step ahead, then the capture towards the h-file, then the
/// capture towards the a-file. A pawn on either edge rank has none of them;
/// the captures are listed only if `include_captures` is set, each only if
/// its file exists.
pub open spec fn pawn_steps(from: BoardPosition, color: PieceColor, include_captures: bool) -> Seq<
    BoardPosition,
> {
    let ahead = from.rank_idx() + direction(color);
    if 0 < from.rank_idx() < 7 {
        let forward = seq![BoardPosition::at(ahead, from.file_idx())];
        let towards_h = if include_captures && from.file_idx() != 7 {
            seq![BoardPosition::at(ahead, from.file_idx() + 1)]
        } else {
            Seq::empty()
        };
        let towards_a = if include_captures && from.file_idx() != 0 {
            seq![BoardPosition::at(ahead, from.file_idx() - 1)]
        } else {
            Seq::empty()
        };
        forward + towards_h + towards_a
    } else {
        Seq::empty()
    }
}

/// The double step: two ranks ahead, for a pawn that stands on its home rank
/// and has not moved.
pub open spec fn pawn_double_step(from: BoardPosition, color: PieceColor, moved: bool) -> Seq<
    BoardPosition,
> {
    if !moved && from.rank_idx() == home_rank(color) {
        seq![BoardPosition::at(from.rank_idx() + 2 * direction(color), from.file_idx())]
    } else {
        Seq::empty()
    }
}

/// The squares a pawn on `from` goes to: its steps, then its double step.
pub open spec fn pawn_moves(
    from: BoardPosition,
    color: PieceColor,
    moved: bool,
    include_captures: bool,
) -> Seq<BoardPosition> {
    pawn_steps(from, color, include_captures) + pawn_double_step(from, color, moved)
}

/// `to` is one rank ahead of `from`, on a file next to it.
pub open spec fn pawn_capture(from: BoardPosition, color: PieceColor, to: BoardPosition) -> bool {
    let ahead = from.rank_idx() + direction(color);
    0 <= ahead < 8 && to.rank_idx() == ahead && ((from.file_idx() > 0 && to.file_idx()
        == from.file_idx() - 1) || (from.file_idx() < 7 && to.file_idx() == from.file_idx() + 1))
}

/// A pawn of the given colour that stands on `position` and has not moved.
pub fn new(position: BoardPosition, color: PieceColor) -> (piece: Piece)
    ensures
        piece == Piece::fresh(PieceType::Pawn, color, position),
{
    Piece {
        piece_type: PieceType::Pawn,
        color,
        starting_position: position,
        position,
        moved: false,
    }
}

/// The way a pawn of the given colour walks along the ranks: -1 for White,
/// 1 for Black.
pub fn move_direction(color: PieceColor) -> (d: i32)
    ensures
        d == direction(color),
{
    match color {
        PieceColor::White => -1,
        PieceColor::Black => 1,
    }
}

/// The rank that lies `steps` ahead of `rank` for a pawn of the given colour.
fn rank_ahead(rank: usize, color: PieceColor, steps: usize) -> (ahead: usize)
    requires
        steps <= 2,
        0 <= rank + steps * direction(color) < 8,
    ensures
        ahead == rank + steps * direction(color),
{
    match color {
        PieceColor::White => rank - steps,
        PieceColor::Black => rank + steps,
    }
}

/// The squares a pawn on `position` goes to: one step ahead, the two
/// captures if asked for, and the double step.
pub fn get_moves(
    position: BoardPosition,
    color: PieceColor,
    moved: bool,
    include_captures: bool,
) -> (moves: Vec<BoardPosition>)
    ensures
        moves@ == pawn_moves(position, color, moved, include_captures),
{
    let own_rank: usize = *position.rank();
    let own_file: usize = *position.file();
    let mut moves: Vec<BoardPosition> = Vec::new();
    if own_rank != 0 && own_rank != 7 {
        let ahead: usize = rank_ahead(own_rank, color, 1);
        moves.push(BoardPosition::new(ahead, own_file));
        if include_captures {
            if own_file != 7 {
                moves.push(BoardPosition::new(ahead, own_file + 1));
            }
            if own_file != 0 {
                moves.push(BoardPosition::new(ahead, own_file - 1));
            }
        }
    }
    assert(moves@ =~= pawn_steps(position, color, include_captures));
    let on_home_rank = match color {
        PieceColor::White => own_rank == 6,
        PieceColor::Black => own_rank == 1,
    };
    if !moved && on_home_rank {
        moves.push(BoardPosition::new(rank_ahead(own_rank, color, 2), own_file));
    }
    assert(moves@ =~= pawn_moves(position, color, moved, include_captures));
    moves
}

/// Whether a pawn on `position` captures on `to`: one rank ahead, on a file
/// next to its own.
pub fn valid_capture(position: BoardPosition, color: PieceColor, to: BoardPosition) -> (ok: bool)
    ensures
        ok == pawn_capture(position, color, to),
{
    let own_rank: usize = *position.rank();
    let own_file: usize = *position.file();
    let ahead_exists = match color {
        PieceColor::White => own_rank > 0,
        PieceColor::Black => own_rank < 7,
    };
    ahead_exists && *to.rank() == rank_ahead(own_rank, color, 1) && ((own_file > 0 && *to.file()
        == own_file - 1) || (own_file < 7 && *to.file() == own_file + 1))
}

} // verus!
