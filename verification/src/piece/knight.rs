//! The knight: eight L-shaped jumps.

use vstd::prelude::*;
use crate::piece::{squares_where, Piece, PieceColor, PieceType};
use crate::position::{lemma_nth_on_board, BoardPosition};

verus! {

/// `to` is one L-shaped jump away from `from`.
pub open spec fn knight_step(from: BoardPosition, to: BoardPosition) -> bool {
    let dr = to.rank_idx() - from.rank_idx();
    let df = to.file_idx() - from.file_idx();
    ((dr == 1 || dr == -1) && (df == 2 || df == -2)) || ((df == 1 || df == -1) && (dr == 2 || dr
        == -2))
}

/// The squares a knight on `from` jumps to, as a predicate.
pub open spec fn knight_targets(from: BoardPosition) -> spec_fn(BoardPosition) -> bool {
    |to: BoardPosition| knight_step(from, to)
}

/// The squares a knight on `from` jumps to, in board-scan order.
pub open spec fn knight_moves(from: BoardPosition) -> Seq<BoardPosition> {
    squares_where(knight_targets(from), 64)
}

/// A knight of the given colour that stands on `position` and has not moved.
pub fn new(position: BoardPosition, color: PieceColor) -> (piece: Piece)
    ensures
        piece == Piece::fresh(PieceType::Knight, color, position),
{
    Piece {
        piece_type: PieceType::Knight,
        color,
        starting_position: position,
        position,
        moved: false,
    }
}

/// The squares a knight on `position` jumps to, in board-scan order.
pub fn get_moves(position: BoardPosition) -> (moves: Vec<BoardPosition>)
    ensures
        moves@ == knight_moves(position),
{
    let own_rank: usize = *position.rank();
    let own_file: usize = *position.file();
    let mut moves: Vec<BoardPosition> = Vec::new();
    let mut rank: usize = 0;
    while rank < 8
        invariant
            rank <= 8,
            own_rank == position.rank_idx(),
            own_file == position.file_idx(),
            own_rank < 8,
            own_file < 8,
            moves@ == squares_where(knight_targets(position), (rank * 8) as nat),
        decreases 8 - rank,
    {
        let mut file: usize = 0;
        while file < 8
            invariant
                rank < 8,
                file <= 8,
                own_rank == position.rank_idx(),
                own_file == position.file_idx(),
                own_rank < 8,
                own_file < 8,
                moves@ == squares_where(knight_targets(position), (rank * 8 + file) as nat),
            decreases 8 - file,
        {
            let rank_gap: usize = if rank > own_rank {
                rank - own_rank
            } else {
                own_rank - rank
            };
            let file_gap: usize = if file > own_file {
                file - own_file
            } else {
                own_file - file
            };
            proof {
                lemma_nth_on_board(rank * 8 + file);
            }
            if (rank_gap == 1 && file_gap == 2) || (file_gap == 1 && rank_gap == 2) {
                moves.push(BoardPosition::new(rank, file));
            }
            file += 1;
        }
        rank += 1;
    }
    moves
}

} // verus!
