//! What holds of every game: laws that relate the functions of this
//! library to each other, each proved from the rules as they are stated.

use vstd::prelude::*;
use crate::castling_rights::CastlingRights;
use crate::chess_board::turns::{board_after_turn, king_and_rook_have_castled};
use crate::chess_board::{fresh_pieces, ChessBoard, GameEndStatus};
use crate::chess_move::Move;
use crate::fen::placement::{read_placement, read_symbols};
use crate::piece::{
    king, lemma_moves_on_board, lemma_squares_where_contains, squares_where, Piece, PieceColor,
    PieceType,
};
use crate::position::BoardPosition;
use crate::rules::{
    accepted, after_move, all_moves_from, castle_corner, castle_rook_landing, derived_move,
    first_king, holds_king, in_check, king_square, legal_moves, moves_from, moves_upto, passes,
    path_clear, pseudo_legal, pseudo_moves, ray_square, span, valid_moves,
};

verus! {

/// Every piece of `board` stands on a square of the board, knows that
/// square, and was created on a square of the board.
pub open spec fn sound(board: Map<BoardPosition, Piece>) -> bool {
    forall|p: BoardPosition| #[trigger]
        board.dom().contains(p) ==> p.on_board() && board[p].square() == p
            && board[p].origin().on_board()
}

/// The pieces of a board stand on its squares and know them.
pub proof fn lemma_board_is_sound(board: &ChessBoard)
    requires
        board.well_placed(),
    ensures
        sound(board.placement()),
{
}

/// A move that is valid with regard to check does not leave the mover's own
/// king in check.
pub proof fn lemma_valid_move_keeps_own_king_safe(
    board: Map<BoardPosition, Piece>,
    rights: CastlingRights,
    m: Move,
    color: PieceColor,
)
    requires
        accepted(board, rights, m, Some(color), true),
    ensures
        !in_check(after_move(board, m.from, m.to), color),
{
}

/// After a valid castle the king and the rook have both moved and both
/// squares they left are empty.
///
/// A castle is the move of a king that goes two files sideways, and the
/// rook of the king's side stands in the corner towards which it goes.
/// Then the king stands on its destination and the rook next to it, on the
/// side the king came from; both count as moved; and the king's square and
/// the corner are empty.
pub proof fn lemma_castle_moves_king_and_rook(
    board: Map<BoardPosition, Piece>,
    rights: CastlingRights,
    m: Move,
    color: PieceColor,
)
    requires
        sound(board),
        m.is_castle,
        derived_move(board, m.from, m.to).is_castle,
        accepted(board, rights, m, Some(color), true),
        board.dom().contains(castle_corner(m)),
        board[castle_corner(m)].kind() == PieceType::Rook,
        board[castle_corner(m)].side() == color,
    ensures
        king_and_rook_have_castled(board, board_after_turn(board, m), m, color),
{
    let piece = board[m.from];
    assert(board.dom().contains(m.from));
    assert(piece.reaches(m.to));
    lemma_moves_on_board(piece, false);
    let listed = piece.moves(false);
    let i = choose|i: int| 0 <= i < listed.len() && listed[i] == m.to;
    assert(listed[i].on_board());
    assert(m.to.on_board());
}

/// With nobody to move, no move passes and no piece has one.
pub proof fn lemma_nobody_to_move_no_moves(
    board: Map<BoardPosition, Piece>,
    rights: Option<CastlingRights>,
    n: nat,
)
    ensures
        moves_upto(board, rights, None, n) == Seq::<Move>::empty(),
        forall|from: BoardPosition, k: nat|
            #[trigger] moves_from(board, rights, None, from, k) == Seq::<Move>::empty(),
    decreases n,
{
    assert forall|from: BoardPosition, k: nat|
        #[trigger] moves_from(board, rights, None, from, k) == Seq::<Move>::empty() by {
        lemma_nobody_to_move_none_from(board, rights, from, k);
    }
    if n > 0 {
        lemma_nobody_to_move_no_moves(board, rights, (n - 1) as nat);
        let from = BoardPosition::nth(n - 1);
        lemma_nobody_to_move_none_from(board, rights, from, board[from].moves(true).len());
        assert(all_moves_from(board, rights, None, from) == Seq::<Move>::empty());
    }
}

/// With nobody to move, the piece on `from` has no move that passes.
pub proof fn lemma_nobody_to_move_none_from(
    board: Map<BoardPosition, Piece>,
    rights: Option<CastlingRights>,
    from: BoardPosition,
    k: nat,
)
    ensures
        moves_from(board, rights, None, from, k) == Seq::<Move>::empty(),
    decreases k,
{
    if k > 0 {
        lemma_nobody_to_move_none_from(board, rights, from, (k - 1) as nat);
        let m = derived_move(board, from, board[from].moves(true)[k - 1]);
        assert(!pseudo_legal(board, m, None));
        assert(!passes(board, rights, m, None));
    }
}

/// Once a game has ended nobody is to move, no move is valid any more, and
/// the list of valid moves of the side to move is empty. If the game ended
/// by checkmate, the side that lost has no valid move and is in check; if it
/// ended by stalemate, one side has no valid move and is not in check.
pub proof fn lemma_game_over(board: &ChessBoard, m: Move, check_for_check: bool)
    requires
        board.settled(),
        board.ending() is Some,
    ensures
        board.to_move() is None,
        !accepted(board.placement(), board.rights(), m, board.to_move(), check_for_check),
        valid_moves(board.placement(), board.rights(), board.to_move(), check_for_check).len() == 0,
        board.ending() == Some(GameEndStatus::Checkmate) ==> board.victor() is Some && legal_moves(
            board.placement(),
            board.rights(),
            Some(board.victor()->0.other()),
        ).len() == 0 && in_check(board.placement(), board.victor()->0.other()),
        board.ending() == Some(GameEndStatus::Stalemate) ==> exists|color: PieceColor|
            #[trigger] legal_moves(board.placement(), board.rights(), Some(color)).len() == 0
                && !in_check(board.placement(), color),
{
    lemma_nobody_to_move_no_moves(board.placement(), Some(board.rights()), 64);
    lemma_nobody_to_move_no_moves(board.placement(), None, 64);
}

/// Reading a placement field names squares of the board only.
pub proof fn lemma_placement_on_board(field: Seq<char>, n: nat)
    requires
        read_symbols(field, n) is Ok,
    ensures
        forall|p: BoardPosition| #[trigger]
            read_symbols(field, n)->Ok_0.placement.dom().contains(p) ==> p.on_board(),
        0 <= read_symbols(field, n)->Ok_0.rank,
        0 <= read_symbols(field, n)->Ok_0.file < 8,
    decreases n,
{
    if n > 0 {
        lemma_placement_on_board(field, (n - 1) as nat);
    }
}

/// A board set up from a placement field shows, square by square, exactly
/// what the field places: a piece of the colour and kind that the field
/// names on each square that it names, standing there unmoved, and nothing
/// on any other square.
pub proof fn lemma_board_shows_what_fen_places(field: Seq<char>, p: BoardPosition)
    requires
        read_placement(field) is Ok,
    ensures
        ({
            let placed = read_placement(field)->Ok_0;
            let board = fresh_pieces(placed, 64);
            &&& board.dom().contains(p) <==> placed.dom().contains(p)
            &&& placed.dom().contains(p) ==> {
                let (color, kind) = placed[p];
                &&& p.on_board()
                &&& board[p].side() == color
                &&& board[p].kind() == kind
                &&& board[p].square() == p
                &&& board[p].origin() == p
                &&& !board[p].has_moved()
            }
        }),
{
    lemma_placement_on_board(field, field.len());
}

/// The piece on `from` goes for `target`: `target` is among the squares of
/// its geometry, and the move there, as the board shows it, is sound for
/// `by` as far as geometry and occupancy go.
pub open spec fn attacks(
    board: Map<BoardPosition, Piece>,
    from: BoardPosition,
    target: BoardPosition,
    by: PieceColor,
) -> bool {
    &&& from.on_board()
    &&& board.dom().contains(from)
    &&& board[from].moves(true).contains(target)
    &&& pseudo_legal(board, derived_move(board, from, target), Some(by))
}

/// The moves listed for the piece on `from` are the moves to the squares of
/// its geometry that pass, and no others.
pub proof fn lemma_moves_from_lists_what_passes(
    board: Map<BoardPosition, Piece>,
    rights: Option<CastlingRights>,
    color: Option<PieceColor>,
    from: BoardPosition,
    k: nat,
    m: Move,
)
    requires
        k <= board[from].moves(true).len(),
    ensures
        moves_from(board, rights, color, from, k).contains(m) <==> exists|j: int|
            0 <= j < k && m == derived_move(board, from, #[trigger] board[from].moves(true)[j])
                && passes(board, rights, m, color),
    decreases k,
{
    let targets = board[from].moves(true);
    if k > 0 {
        let before = moves_from(board, rights, color, from, (k - 1) as nat);
        let last = derived_move(board, from, targets[k - 1]);
        lemma_moves_from_lists_what_passes(board, rights, color, from, (k - 1) as nat, m);
        let listed = moves_from(board, rights, color, from, k);
        if listed.contains(m) {
            let i = choose|i: int| 0 <= i < listed.len() && listed[i] == m;
            if i < before.len() {
                assert(before[i] == m);
                assert(before.contains(m));
                let j = choose|j: int|
                    0 <= j < k - 1 && m == derived_move(board, from, #[trigger] targets[j])
                        && passes(board, rights, m, color);
                assert(0 <= j < k && m == derived_move(board, from, targets[j]));
            } else {
                assert(m == last);
                assert(m == derived_move(board, from, targets[k - 1]));
            }
        }
        if exists|j: int|
            0 <= j < k && m == derived_move(board, from, #[trigger] targets[j]) && passes(
                board,
                rights,
                m,
                color,
            ) {
            let j = choose|j: int|
                0 <= j < k && m == derived_move(board, from, #[trigger] targets[j]) && passes(
                    board,
                    rights,
                    m,
                    color,
                );
            if j < k - 1 {
                assert(before.contains(m));
                let i = choose|i: int| 0 <= i < before.len() && before[i] == m;
                assert(listed[i] == m);
            } else {
                assert(listed == before.push(m));
                assert(listed[before.len() as int] == m);
            }
        }
    }
}

/// The moves listed for the first `n` squares are the moves that are listed
/// for the pieces on them, and no others.
pub proof fn lemma_moves_upto_lists_each_square(
    board: Map<BoardPosition, Piece>,
    rights: Option<CastlingRights>,
    color: Option<PieceColor>,
    n: nat,
    m: Move,
)
    ensures
        moves_upto(board, rights, color, n).contains(m) <==> exists|i: int|
            0 <= i < n && (#[trigger] all_moves_from(
                board,
                rights,
                color,
                BoardPosition::nth(i),
            )).contains(m),
    decreases n,
{
    if n > 0 {
        let before = moves_upto(board, rights, color, (n - 1) as nat);
        let here = all_moves_from(board, rights, color, BoardPosition::nth(n - 1));
        let listed = before + here;
        lemma_moves_upto_lists_each_square(board, rights, color, (n - 1) as nat, m);
        if listed.contains(m) {
            let i = choose|i: int| 0 <= i < listed.len() && listed[i] == m;
            if i < before.len() {
                assert(before[i] == m);
                assert(before.contains(m));
            } else {
                assert(here[i - before.len()] == m);
                assert(here.contains(m));
            }
        }
        if before.contains(m) {
            let i = choose|i: int| 0 <= i < before.len() && before[i] == m;
            assert(listed[i] == m);
        }
        if here.contains(m) {
            let i = choose|i: int| 0 <= i < here.len() && here[i] == m;
            assert(listed[before.len() + i] == m);
        }
    }
}

/// A side is in check if and only if a piece of the other side goes for
/// the square of its king.
pub proof fn lemma_in_check_means_attacked(board: Map<BoardPosition, Piece>, color: PieceColor)
    ensures
        in_check(board, color) <==> exists|from: BoardPosition| #[trigger]
            attacks(board, from, king_square(board, color), color.other()),
{
    let by = Some(color.other());
    let king = king_square(board, color);
    let threats = pseudo_moves(board, by);
    if in_check(board, color) {
        let i = choose|i: int| 0 <= i < threats.len() && (#[trigger] threats[i]).to == king;
        let m = threats[i];
        assert(threats.contains(m));
        lemma_moves_upto_lists_each_square(board, None, by, 64, m);
        let place = choose|place: int|
            0 <= place < 64 && (#[trigger] all_moves_from(
                board,
                None,
                by,
                BoardPosition::nth(place),
            )).contains(m);
        let from = BoardPosition::nth(place);
        crate::position::lemma_nth_on_board(place);
        let targets = board[from].moves(true);
        lemma_moves_from_lists_what_passes(board, None, by, from, targets.len(), m);
        let j = choose|j: int|
            0 <= j < targets.len() && m == derived_move(board, from, #[trigger] targets[j])
                && passes(board, None, m, by);
        assert(targets[j] == king);
        assert(targets.contains(king));
        assert(attacks(board, from, king, color.other()));
    }
    if exists|from: BoardPosition| #[trigger] attacks(board, from, king, color.other()) {
        let from = choose|from: BoardPosition| #[trigger]
            attacks(board, from, king, color.other());
        let targets = board[from].moves(true);
        let j = choose|j: int| 0 <= j < targets.len() && targets[j] == king;
        let m = derived_move(board, from, king);
        assert(m == derived_move(board, from, targets[j]));
        assert(passes(board, None, m, by));
        lemma_moves_from_lists_what_passes(board, None, by, from, targets.len(), m);
        crate::position::lemma_scan_index_inverts_nth(from);
        assert(all_moves_from(board, None, by, BoardPosition::nth(from.scan_index())).contains(m));
        lemma_moves_upto_lists_each_square(board, None, by, 64, m);
        assert(threats.contains(m));
        let i = choose|i: int| 0 <= i < threats.len() && threats[i] == m;
        assert(threats[i].to == king);
    }
}

/// Two boards on which the kings of `color` stand on the same squares have
/// the same first king of `color`.
pub proof fn lemma_first_king_same(
    one: Map<BoardPosition, Piece>,
    other: Map<BoardPosition, Piece>,
    color: PieceColor,
    n: nat,
)
    requires
        forall|p: BoardPosition| holds_king(one, color, p) == holds_king(other, color, p),
    ensures
        first_king(one, color, n) == first_king(other, color, n),
    decreases n,
{
    if n > 0 {
        lemma_first_king_same(one, other, color, (n - 1) as nat);
    }
}

/// No square of the edge file `edge` on the rank of `target` lies strictly
/// between a square of the board and `target` on the way from one to the
/// other: the way would have to come from beyond the edge.
pub proof fn lemma_edge_of_rank_is_not_on_the_way(
    from: BoardPosition,
    target: BoardPosition,
    edge: int,
    k: int,
)
    requires
        from.on_board(),
        target.on_board(),
        edge == 0 || edge == 7,
        0 < k < span(from, target),
    ensures
        ray_square(from, target, k) != BoardPosition::at(target.rank_idx(), edge),
{
}

/// A king that has castled is as safe with the rook beside it as it was
/// before the rook came: if the king on its destination is the king that
/// [`king_square`] finds, the side that castled is not in check once the
/// rook has gone to its square.
pub proof fn lemma_castle_keeps_king_safe(
    board: Map<BoardPosition, Piece>,
    rights: CastlingRights,
    m: Move,
    color: PieceColor,
)
    requires
        sound(board),
        m.is_castle,
        derived_move(board, m.from, m.to).is_castle,
        accepted(board, rights, m, Some(color), true),
        board.dom().contains(castle_corner(m)),
        board[castle_corner(m)].kind() == PieceType::Rook,
        board[castle_corner(m)].side() == color,
        king_square(after_move(board, m.from, m.to), color) == m.to,
    ensures
        !in_check(board_after_turn(board, m), color),
{
    let corner = castle_corner(m);
    let landing = castle_rook_landing(m);
    let first = after_move(board, m.from, m.to);
    let second = board_after_turn(board, m);
    lemma_castle_moves_king_and_rook(board, rights, m, color);
    lemma_castle_is_along_the_rank(board, m);
    // The rook's square was empty: it is the first square on the way to the corner.
    assert(ray_square(m.from, corner, 1) == landing);
    assert(!board.dom().contains(landing));
    assert(!first.dom().contains(landing));
    assert(first.dom().contains(corner) && first[corner] == board[corner]);
    assert forall|p: BoardPosition| holds_king(first, color, p) == holds_king(
        second,
        color,
        p,
    ) by {}
    lemma_first_king_same(first, second, color, 64);
    assert(king_square(second, color) == m.to);
    lemma_in_check_means_attacked(first, color);
    lemma_in_check_means_attacked(second, color);
    if in_check(second, color) {
        let by = choose|by: BoardPosition| #[trigger]
            attacks(second, by, m.to, color.other());
        assert(by != corner);
        assert(by != landing);
        assert(first.dom().contains(by) && first[by] == second[by]);
        assert(derived_move(first, by, m.to) == derived_move(second, by, m.to));
        if first[by].sliding() {
            assert forall|k: int| 0 < k < span(by, m.to) implies !first.dom().contains(
                #[trigger] ray_square(by, m.to, k),
            ) by {
                lemma_edge_of_rank_is_not_on_the_way(by, m.to, corner.file_idx(), k);
                assert(!second.dom().contains(ray_square(by, m.to, k)));
            }
            assert(path_clear(first, by, m.to));
        }
        assert(pseudo_legal(first, derived_move(first, by, m.to), Some(color.other())));
        assert(attacks(first, by, m.to, color.other()));
        assert(in_check(first, color));
    }
}

/// A castle leads along the rank of the king: a king that goes two files
/// sideways to a square of its geometry stays on its rank.
pub proof fn lemma_castle_is_along_the_rank(board: Map<BoardPosition, Piece>, m: Move)
    requires
        sound(board),
        board.dom().contains(m.from),
        derived_move(board, m.from, m.to).is_castle,
        board[m.from].reaches(m.to),
    ensures
        m.to.rank_idx() == m.from.rank_idx(),
        m.to.on_board(),
        m.to.file_idx() == m.from.file_idx() + 2 || m.to.file_idx() == m.from.file_idx() - 2,
{
    let piece = board[m.from];
    let ring = squares_where(king::king_targets(m.from), 64);
    let castles = king::castle_destinations(m.from, piece.has_moved());
    let listed = ring + castles;
    assert(piece.moves(false) == listed);
    let i = choose|i: int| 0 <= i < listed.len() && listed[i] == m.to;
    assert(listed[i] == m.to);
    if i < ring.len() {
        assert(ring[i] == m.to);
        assert(ring.contains(m.to));
        lemma_squares_where_contains(king::king_targets(m.from), 64, m.to);
    } else {
        assert(castles[i - ring.len()] == m.to);
    }
}

} // verus!
