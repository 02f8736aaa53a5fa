//! The king: one step in any direction, and two steps sideways to castle
//! while it has not moved.

use vstd::prelude::*;
use crate::piece::{squares_where, Piece, PieceColor, PieceType};
use crate::position::{lemma_nth_on_board, BoardPosition};

verus! {

/// `to` is next to `from`: one step along a rank, a file or a diagonal.
pub open spec fn king_step(from: BoardPosition, to: BoardPosition) -> bool {
    let dr = to.rank_idx() - from.rank_idx();
    let df = to.file_idx() - from.file_idx();
    -1 <= dr <= 1 && -1 <= df <= 1 && (dr != 0 || df != 0)
}

/// The squares next to `from`, as a predicate.
pub open spec fn king_targets(from: BoardPosition) -> spec_fn(BoardPosition) -> bool {
    |to: BoardPosition| king_step(from, to)
}

/// Where a king on `from` lands when it castles: two files towards the
/// h-file, then two files towards the a-file, each if that square is on the
/// board. A king that has moved has no such squares.
pub open spec fn castle_destinations(from: BoardPosition, moved: bool) -> Seq<BoardPosition> {
    let king_side = if !moved && from.file_idx() < 6 {
        seq![BoardPosition::at(from.rank_idx(), from.file_idx() + 2)]
    } else {
        Seq::empty()
    };
    let queen_side = if !moved && from.file_idx() >= 2 {
        seq![BoardPosition::at(from.rank_idx(), from.file_idx() - 2)]
    } else {
        Seq::empty()
    };
    king_side + queen_side
}

/// The squares a king on `from` goes to on an empty board: the squares next
/// to it in board-scan order, then its castle destinations.
pub open spec fn king_moves(from: BoardPosition, moved: bool) -> Seq<BoardPosition> {
    squares_where(king_targets(from), 64) + castle_destinations(from, moved)
}

/// A king of the given colour that stands on `position` and has not moved.
pub fn new(position: BoardPosition, color: PieceColor) -> (piece: Piece)
    ensures
        piece == Piece::fresh(PieceType::King, color, position),
{
    Piece {
        piece_type: PieceType::King,
        color,
        starting_position: position,
        position,
        moved: false,
    }
}

/// The squares a king on `position` goes to on an empty board: the squares
/// next to it in board-scan order, then its castle destinations.
pub fn get_moves(position: BoardPosition, moved: bool) -> (moves: Vec<BoardPosition>)
    ensures
        moves@ == king_moves(position, moved),
{
    let own_rank: usize = *position.rank();
    let own_file: usize = *position.file();
    let mut moves: Vec<BoardPosition> = Vec::new();
    let mut rank: usize = 0;
    while rank < 8
        invariant
            rank <= 8,
            own_rank == position.rank_idx(),
            own_file == position.file_idx(),
            own_rank < 8,
            own_file < 8,
            moves@ == squares_where(king_targets(position), (rank * 8) as nat),
        decreases 8 - rank,
    {
        let mut file: usize = 0;
        while file < 8
            invariant
                rank < 8,
                file <= 8,
                own_rank == position.rank_idx(),
                own_file == position.file_idx(),
                own_rank < 8,
                own_file < 8,
                moves@ == squares_where(king_targets(position), (rank * 8 + file) as nat),
            decreases 8 - file,
        {
            let rank_gap: usize = if rank > own_rank {
                rank - own_rank
            } else {
                own_rank - rank
            };
            let file_gap: usize = if file > own_file {
                file - own_file
            } else {
                own_file - file
            };
            proof {
                lemma_nth_on_board(rank * 8 + file);
            }
            if (rank == own_rank && file_gap == 1) || (file == own_file && rank_gap == 1) || (
            file_gap == 1 && rank_gap == 1) {
                moves.push(BoardPosition::new(rank, file));
            }
            file += 1;
        }
        rank += 1;
    }
    let ghost ring = moves@;
    if !moved {
        if own_file < 6 {
            moves.push(BoardPosition::new(own_rank, own_file + 2));
        }
        if own_file >= 2 {
            moves.push(BoardPosition::new(own_rank, own_file - 2));
        }
    }
    assert(moves@ =~= ring + castle_destinations(position, moved));
    moves
}

} // verus!
