//! The rules of the game, stated over a mathematical board: a map from the
//! occupied squares to the pieces that stand on them.

use vstd::prelude::*;
use crate::castling_rights::CastlingRights;
use crate::chess_move::Move;
use crate::piece::{Piece, PieceColor, PieceType};
use crate::position::BoardPosition;

verus! {

/// The board after the piece on `from` has been put on `to`: it stands on
/// `to` and counts as moved, whatever stood on `to` is gone, and `from` is
/// empty.
pub open spec fn after_move(
    board: Map<BoardPosition, Piece>,
    from: BoardPosition,
    to: BoardPosition,
) -> Map<BoardPosition, Piece> {
    board.insert(to, board[from].relocated(to, true)).remove(from)
}

/// How far `k` steps lead along one axis when the destination lies `delta`
/// away on it: forwards, backwards, or not at all.
pub open spec fn along(delta: int, k: int) -> int {
    if delta > 0 {
        k
    } else if delta < 0 {
        -k
    } else {
        0
    }
}

/// The number of steps from `a` to `b` along the line that joins them.
pub open spec fn span(a: BoardPosition, b: BoardPosition) -> int {
    let dr = b.rank_idx() - a.rank_idx();
    let df = b.file_idx() - a.file_idx();
    let up = if dr < 0 {
        -dr
    } else {
        dr
    };
    let across = if df < 0 {
        -df
    } else {
        df
    };
    if up > across {
        up
    } else {
        across
    }
}

/// The square `k` steps from `a` on the way to `b`.
pub open spec fn ray_square(a: BoardPosition, b: BoardPosition, k: int) -> BoardPosition {
    BoardPosition::at(
        a.rank_idx() + along(b.rank_idx() - a.rank_idx(), k),
        a.file_idx() + along(b.file_idx() - a.file_idx(), k),
    )
}

/// No piece stands strictly between `a` and `b` on the line that joins them.
/// Squares next to each other have nothing between them.
pub open spec fn path_clear(board: Map<BoardPosition, Piece>, a: BoardPosition, b: BoardPosition) -> bool {
    forall|k: int| 0 < k < span(a, b) ==> !board.dom().contains(#[trigger] ray_square(a, b, k))
}

/// The record of the move from `from` to `to` as the board shows it before
/// the move: the kind and colour of the piece on `from`, a capture if `to`
/// is occupied, a castle if a king goes two files sideways.
pub open spec fn derived_move(
    board: Map<BoardPosition, Piece>,
    from: BoardPosition,
    to: BoardPosition,
) -> Move {
    let gap = to.file_idx() - from.file_idx();
    Move {
        from,
        to,
        piece_type: board[from].kind(),
        piece_color: board[from].side(),
        is_capture: board.dom().contains(to),
        is_castle: board[from].kind() == PieceType::King && (gap == 2 || gap == -2),
    }
}

/// The move `m` is sound for `color` as far as the pieces' geometry and the
/// occupancy of the board go:
/// it is not marked both as a capture and as a castle;
/// a piece stands on its source square, and it belongs to `color`;
/// its destination is empty and the piece goes there, or holds an enemy
/// piece that the piece takes;
/// and unless the piece jumps, nothing stands between source and destination.
pub open spec fn pseudo_legal(
    board: Map<BoardPosition, Piece>,
    m: Move,
    color: Option<PieceColor>,
) -> bool {
    let piece = board[m.from];
    &&& !(m.is_castle && m.is_capture)
    &&& board.dom().contains(m.from)
    &&& color == Some(piece.side())
    &&& if board.dom().contains(m.to) {
        board[m.to].side() != piece.side() && piece.captures(m.to)
    } else {
        piece.reaches(m.to)
    }
    &&& piece.sliding() ==> path_clear(board, m.from, m.to)
}

/// `color`'s king stands on `p`.
pub open spec fn holds_king(
    board: Map<BoardPosition, Piece>,
    color: PieceColor,
    p: BoardPosition,
) -> bool {
    board.dom().contains(p) && board[p].kind() == PieceType::King && board[p].side() == color
}

/// The first square among the first `n` places of scan order on which a king
/// of `color` stands, if there is one.
pub open spec fn first_king(board: Map<BoardPosition, Piece>, color: PieceColor, n: nat) -> Option<
    BoardPosition,
>
    decreases n,
{
    if n == 0 {
        None
    } else {
        match first_king(board, color, (n - 1) as nat) {
            Some(p) => Some(p),
            None => if holds_king(board, color, BoardPosition::nth(n - 1)) {
                Some(BoardPosition::nth(n - 1))
            } else {
                None
            },
        }
    }
}

/// The square on which `color`'s king stands: the first in scan order if
/// there are several, and the top left corner if there is none.
pub open spec fn king_square(board: Map<BoardPosition, Piece>, color: PieceColor) -> BoardPosition {
    match first_king(board, color, 64) {
        Some(p) => p,
        None => BoardPosition::at(0, 0),
    }
}

/// The corner towards which the move `m` goes along its rank: the h-file
/// corner if it goes towards the h-file, the a-file corner if not. A castle
/// takes the rook that stands there along.
pub open spec fn castle_corner(m: Move) -> BoardPosition {
    BoardPosition::at(
        m.from.rank_idx(),
        if m.to.file_idx() > m.from.file_idx() {
            7
        } else {
            0
        },
    )
}

/// The square on which the piece from the corner lands in a castle: next to
/// the destination of `m`, on the side the move came from.
pub open spec fn castle_rook_landing(m: Move) -> BoardPosition {
    BoardPosition::at(
        m.to.rank_idx(),
        m.to.file_idx() - along(m.to.file_idx() - m.from.file_idx(), 1),
    )
}

/// How deep a judgement goes: one level deeper with regard to check, where
/// the moves of the other side are judged in turn, without such regard.
pub open spec fn depth(rights: Option<CastlingRights>) -> int {
    if rights is Some {
        1
    } else {
        0
    }
}

/// Whether a move passes when it is judged, in one of two ways. Without
/// `rights` only geometry and occupancy count ([`pseudo_legal`]). With
/// `rights` the move must also leave the mover's own king out of check, and
/// a castle must be one that `rights` still allows, with nothing between
/// the king and the corner, and made by a side that is not in check. That a
/// castling king does not end up in check is the same demand as that no
/// move leaves the mover's king in check, so it is stated once.
pub open spec fn passes(
    board: Map<BoardPosition, Piece>,
    rights: Option<CastlingRights>,
    m: Move,
    color: Option<PieceColor>,
) -> bool
    decreases depth(rights), 0int, 0nat,
{
    &&& pseudo_legal(board, m, color)
    &&& rights matches Some(rights) ==> {
        &&& !in_check(after_move(board, m.from, m.to), color->0)
        &&& m.is_castle ==> {
            &&& rights.allows(color->0, m.to.file_idx() - m.from.file_idx())
            &&& path_clear(board, m.from, castle_corner(m))
            &&& !in_check(board, color->0)
        }
    }
}

/// The moves of the piece on `from` to the first `k` squares of its geometry
/// that pass, each as the board shows it.
pub open spec fn moves_from(
    board: Map<BoardPosition, Piece>,
    rights: Option<CastlingRights>,
    color: Option<PieceColor>,
    from: BoardPosition,
    k: nat,
) -> Seq<Move>
    decreases depth(rights), 1int, k,
{
    if k == 0 {
        Seq::empty()
    } else {
        let before = moves_from(board, rights, color, from, (k - 1) as nat);
        let m = derived_move(board, from, board[from].moves(true)[k - 1]);
        if passes(board, rights, m, color) {
            before.push(m)
        } else {
            before
        }
    }
}

/// All the moves of the piece on `from` that pass; none if `from` is empty.
pub open spec fn all_moves_from(
    board: Map<BoardPosition, Piece>,
    rights: Option<CastlingRights>,
    color: Option<PieceColor>,
    from: BoardPosition,
) -> Seq<Move>
    decreases depth(rights), 2int, 0nat,
{
    if board.dom().contains(from) {
        moves_from(board, rights, color, from, board[from].moves(true).len())
    } else {
        Seq::empty()
    }
}

/// The moves that pass of the pieces on the first `n` places of scan order:
/// square by square, and for each piece in the order of its geometry.
pub open spec fn moves_upto(
    board: Map<BoardPosition, Piece>,
    rights: Option<CastlingRights>,
    color: Option<PieceColor>,
    n: nat,
) -> Seq<Move>
    decreases depth(rights), 3int, n,
{
    if n == 0 {
        Seq::empty()
    } else {
        moves_upto(board, rights, color, (n - 1) as nat) + all_moves_from(
            board,
            rights,
            color,
            BoardPosition::nth(n - 1),
        )
    }
}

/// The moves that geometry and occupancy allow to `color`, in scan order.
pub open spec fn pseudo_moves(board: Map<BoardPosition, Piece>, color: Option<PieceColor>) -> Seq<
    Move,
>
    decreases 0int, 4int, 0nat,
{
    moves_upto(board, None, color, 64)
}

/// The moves that `color` may make, in scan order.
pub open spec fn legal_moves(
    board: Map<BoardPosition, Piece>,
    rights: CastlingRights,
    color: Option<PieceColor>,
) -> Seq<Move> {
    moves_upto(board, Some(rights), color, 64)
}

/// `color` is in check: a move that geometry and occupancy allow to the
/// other side ends on the square of `color`'s king.
pub open spec fn in_check(board: Map<BoardPosition, Piece>, color: PieceColor) -> bool
    decreases 0int, 5int, 0nat,
{
    let threats = pseudo_moves(board, Some(color.other()));
    exists|i: int| 0 <= i < threats.len() && (#[trigger] threats[i]).to == king_square(board, color)
}

/// Whether the move `m` is valid for `color`, with or without regard to
/// check.
pub open spec fn accepted(
    board: Map<BoardPosition, Piece>,
    rights: CastlingRights,
    m: Move,
    color: Option<PieceColor>,
    check_for_check: bool,
) -> bool {
    passes(
        board,
        if check_for_check {
            Some(rights)
        } else {
            None
        },
        m,
        color,
    )
}

/// The valid moves of `color`, with or without regard to check.
pub open spec fn valid_moves(
    board: Map<BoardPosition, Piece>,
    rights: CastlingRights,
    color: Option<PieceColor>,
    check_for_check: bool,
) -> Seq<Move> {
    if check_for_check {
        legal_moves(board, rights, color)
    } else {
        pseudo_moves(board, color)
    }
}

} // verus!
