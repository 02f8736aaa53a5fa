//! A game, turn by turn: setting the board up, making a move that was asked
//! for, and noticing that the game has ended.

use vstd::prelude::*;
use crate::chess_board::{creations, fresh_pieces, ChessBoard, GameEndStatus};
use crate::chess_move::Move;
use crate::events::{PieceCreateEvent, PieceMoveEvent, RequestMoveEvent, ResetBoardEvent};
use crate::fen::{lemma_starting_fen_reads, read_fen, starting_placement, Fen, STARTING_FEN};
use crate::laws::{lemma_castle_keeps_king_safe, lemma_castle_moves_king_and_rook};
use crate::piece::{Piece, PieceColor, PieceType};
use crate::position::BoardPosition;
use crate::rules::{
    accepted, after_move, castle_corner, castle_rook_landing, derived_move, in_check, king_square,
    legal_moves,
};

verus! {

/// The board after the move `m` has been made: the piece has gone from its
/// source to its destination, and in a castle what stands in the corner has
/// gone to the square next to it.
pub open spec fn board_after_turn(board: Map<BoardPosition, Piece>, m: Move) -> Map<
    BoardPosition,
    Piece,
> {
    let moved = after_move(board, m.from, m.to);
    if m.is_castle {
        after_move(moved, castle_corner(m), castle_rook_landing(m))
    } else {
        moved
    }
}

/// The notices of the pieces that change their square when `m` is made.
pub open spec fn notices_of_turn(m: Move) -> Seq<PieceMoveEvent> {
    let first = seq![PieceMoveEvent { from: m.from, to: m.to }];
    if m.is_castle {
        first.push(PieceMoveEvent { from: castle_corner(m), to: castle_rook_landing(m) })
    } else {
        first
    }
}

/// The move `m` castles, and the corner towards which it goes does not hold
/// a rook of the side whose piece moves.
pub open spec fn castle_partner_missing(board: Map<BoardPosition, Piece>, m: Move) -> bool {
    m.is_castle && !(board.dom().contains(castle_corner(m)) && board[castle_corner(m)].kind()
        == PieceType::Rook && board[castle_corner(m)].side() == board[m.from].side())
}

/// What a castle of `color` by the move `m` makes of the board `before`:
/// the king stands on its destination and the rook from the corner next to
/// it, on the side the king came from; both count as moved; and the king's
/// square and the corner are empty.
pub open spec fn king_and_rook_have_castled(
    before: Map<BoardPosition, Piece>,
    after: Map<BoardPosition, Piece>,
    m: Move,
    color: PieceColor,
) -> bool {
    let corner = castle_corner(m);
    let landing = castle_rook_landing(m);
    &&& after.dom().contains(m.to)
    &&& after[m.to] == before[m.from].relocated(m.to, true)
    &&& after[m.to].kind() == PieceType::King
    &&& after[m.to].side() == color
    &&& after[m.to].has_moved()
    &&& after.dom().contains(landing)
    &&& after[landing] == before[corner].relocated(landing, true)
    &&& after[landing].kind() == PieceType::Rook
    &&& after[landing].side() == color
    &&& after[landing].has_moved()
    &&& landing.rank_idx() == m.to.rank_idx()
    &&& (landing.file_idx() - m.to.file_idx() == 1 || m.to.file_idx() - landing.file_idx() == 1)
    &&& !after.dom().contains(m.from)
    &&& !after.dom().contains(corner)
}

/// Sets `board` up in the starting position and adds a notice of each piece
/// to `create_event`.
pub fn setup(create_event: &mut Vec<PieceCreateEvent>, board: &mut ChessBoard)
    ensures
        read_fen(STARTING_FEN@) matches Ok(start) && final(board).describes(start),
        final(board).placement() == fresh_pieces(starting_placement(), 64),
        final(board).to_move() == Some(PieceColor::White),
        final(board).turn() == 1,
        final(board).rights().white[0] && final(board).rights().white[1],
        final(board).rights().black[0] && final(board).rights().black[1],
        final(board).settled(),
        final(create_event)@ == old(create_event)@ + creations(starting_placement(), 64),
{
    proof {
        lemma_starting_fen_reads();
    }
    let fen = Fen::default();
    *board = ChessBoard::from_fen(&fen, create_event);
}

/// Sets `board` up as the request `event` says and adds a notice of each
/// piece to `create_event`.
pub fn reset_board_state(
    event: &ResetBoardEvent,
    board: &mut ChessBoard,
    create_event: &mut Vec<PieceCreateEvent>,
)
    ensures
        final(board).describes(event.fen@),
        final(board).settled(),
        final(create_event)@ == old(create_event)@ + creations(event.fen@.placement, 64),
{
    *board = ChessBoard::from_fen(event.fen(), create_event);
}

/// Whether the move `piece_move` is a valid castle on `board` for which the
/// corner holds no rook of the mover to go along: [`make_move`] is not to be
/// called with such a move.
pub fn castle_lacks_partner(board: &ChessBoard, piece_move: &Move) -> (lacking: bool)
    ensures
        lacking == (accepted(
            board.placement(),
            board.rights(),
            *piece_move,
            board.to_move(),
            true,
        ) && castle_partner_missing(board.placement(), *piece_move)),
{
    if !piece_move.is_castle() {
        return false;
    }
    if !board.valid_move(piece_move, board.active_color(), &true) {
        return false;
    }
    let mover = match board.get_piece_color(&piece_move.from) {
        Some(color) => color,
        None => {
            return false;
        },
    };
    let corner = corner_of(piece_move);
    match board.get_piece(&corner) {
        Some(partner) => !(partner.get_type() == PieceType::Rook && partner.get_color() == mover),
        None => true,
    }
}

/// The corner towards which `piece_move` goes along its rank.
fn corner_of(piece_move: &Move) -> (corner: BoardPosition)
    ensures
        corner == castle_corner(*piece_move),
{
    BoardPosition::new(
        *piece_move.from.rank(),
        if *piece_move.to.file() > *piece_move.from.file() {
            7
        } else {
            0
        },
    )
}

/// Makes the move that `request_event` asks for, if it is valid for the side
/// to move; a move that is not valid changes nothing.
///
/// The piece goes to its destination, and in a castle the rook in the
/// corner goes to the square next to it. A notice of each piece that
/// changed its square is added to `move_events`. Then the other side is to
/// move, the move is added to the moves made, the number of the move goes up
/// if White is to move again, and the castles that the move closed are
/// taken away.
///
/// A valid castle needs a rook of the mover in the corner
/// ([`castle_lacks_partner`] tells), and a valid move of Black a number of
/// the move that can still go up.
pub fn make_move(
    request_event: &RequestMoveEvent,
    move_events: &mut Vec<PieceMoveEvent>,
    board: &mut ChessBoard,
)
    requires
        accepted(
            old(board).placement(),
            old(board).rights(),
            request_event.piece_move,
            old(board).to_move(),
            true,
        ) && old(board).to_move() == Some(PieceColor::Black) ==> old(board).turn() < i32::MAX,
        !(accepted(
            old(board).placement(),
            old(board).rights(),
            request_event.piece_move,
            old(board).to_move(),
            true,
        ) && castle_partner_missing(old(board).placement(), request_event.piece_move)),
    ensures
        !accepted(
            old(board).placement(),
            old(board).rights(),
            request_event.piece_move,
            old(board).to_move(),
            true,
        ) ==> {
            &&& final(board).placement() == old(board).placement()
            &&& final(board).same_state_around_board(old(board))
            &&& final(move_events)@ == old(move_events)@
        },
        accepted(
            old(board).placement(),
            old(board).rights(),
            request_event.piece_move,
            old(board).to_move(),
            true,
        ) ==> {
            &&& final(board).placement() == board_after_turn(
                old(board).placement(),
                request_event.piece_move,
            )
            &&& final(move_events)@ == old(move_events)@ + notices_of_turn(request_event.piece_move)
            &&& final(board).to_move() == Some(old(board).to_move()->0.other())
            &&& final(board).history() == old(board).history().push(request_event.piece_move)
            &&& final(board).turn() == old(board).turn() + (if old(board).to_move() == Some(
                PieceColor::Black,
            ) {
                1int
            } else {
                0int
            })
            &&& final(board).rights() == old(board).rights().after(request_event.piece_move)
            &&& final(board).victor() == old(board).victor()
            &&& final(board).ending() == old(board).ending()
        },
        accepted(
            old(board).placement(),
            old(board).rights(),
            request_event.piece_move,
            old(board).to_move(),
            true,
        ) && !request_event.piece_move.is_castle ==> !in_check(
            final(board).placement(),
            old(board).to_move()->0,
        ),
        accepted(
            old(board).placement(),
            old(board).rights(),
            request_event.piece_move,
            old(board).to_move(),
            true,
        ) && request_event.piece_move.is_castle && derived_move(
            old(board).placement(),
            request_event.piece_move.from,
            request_event.piece_move.to,
        ).is_castle ==> king_and_rook_have_castled(
            old(board).placement(),
            final(board).placement(),
            request_event.piece_move,
            old(board).to_move()->0,
        ),
        accepted(
            old(board).placement(),
            old(board).rights(),
            request_event.piece_move,
            old(board).to_move(),
            true,
        ) && request_event.piece_move.is_castle && derived_move(
            old(board).placement(),
            request_event.piece_move.from,
            request_event.piece_move.to,
        ).is_castle && king_square(
            after_move(
                old(board).placement(),
                request_event.piece_move.from,
                request_event.piece_move.to,
            ),
            old(board).to_move()->0,
        ) == request_event.piece_move.to ==> !in_check(
            final(board).placement(),
            old(board).to_move()->0,
        ),
        final(board).rights().within(old(board).rights()),
        final(board).well_placed(),
        old(board).settled() ==> final(board).settled(),
{
    let piece_move = request_event.piece_move;
    proof {
        use_type_invariant(&board.board);
        use_type_invariant(piece_move.from);
        use_type_invariant(piece_move.to);
    }
    if !board.valid_move(&piece_move, board.active_color(), &true) {
        return ;
    }
    let mover = match board.active_color {
        Some(color) => color,
        None => {
            return ;
        },
    };
    proof {
        if piece_move.is_castle && derived_move(
            board.placement(),
            piece_move.from,
            piece_move.to,
        ).is_castle {
            lemma_castle_moves_king_and_rook(
                board.placement(),
                board.rights(),
                piece_move,
                mover,
            );
            if king_square(after_move(board.placement(), piece_move.from, piece_move.to), mover)
                == piece_move.to {
                lemma_castle_keeps_king_safe(
                    board.placement(),
                    board.rights(),
                    piece_move,
                    mover,
                );
            }
        }
    }
    board.move_piece(&piece_move.from, &piece_move.to);
    move_events.push(PieceMoveEvent::new(piece_move.from, piece_move.to));
    if piece_move.is_castle() {
        let from = corner_of(&piece_move);
        let to_file: usize = *piece_move.to.file();
        let landing_file: usize = if to_file > *piece_move.from.file() {
            to_file - 1
        } else {
            to_file + 1
        };
        let to = BoardPosition::new(*piece_move.to.rank(), landing_file);
        board.move_piece(&from, &to);
        move_events.push(PieceMoveEvent::new(from, to));
    }
    assert(move_events@ =~= old(move_events)@ + notices_of_turn(piece_move));
    board.active_color = Some(mover.opposite());
    board.past_moves.push(piece_move);
    if mover == PieceColor::Black {
        board.move_number += 1;
    }
    board.castling_rights.update_after_move(&piece_move);
    proof {
        use_type_invariant(&board.board);
    }
}

/// Ends the game if the side to move has no valid move: by checkmate, which
/// the other side wins, if it is in check, and by stalemate, which nobody
/// wins, if it is not. Once the game has ended nobody is to move.
pub fn game_end_checker(board: &mut ChessBoard)
    ensures
        final(board).placement() == old(board).placement(),
        final(board).history() == old(board).history(),
        final(board).turn() == old(board).turn(),
        final(board).rights() == old(board).rights(),
        match old(board).to_move() {
            Some(color) if legal_moves(
                old(board).placement(),
                old(board).rights(),
                Some(color),
            ).len() == 0 => {
                &&& final(board).to_move() is None
                &&& if in_check(old(board).placement(), color) {
                    &&& final(board).ending() == Some(GameEndStatus::Checkmate)
                    &&& final(board).victor() == Some(color.other())
                } else {
                    &&& final(board).ending() == Some(GameEndStatus::Stalemate)
                    &&& final(board).victor() == old(board).victor()
                }
            },
            _ => {
                &&& final(board).to_move() == old(board).to_move()
                &&& final(board).ending() == old(board).ending()
                &&& final(board).victor() == old(board).victor()
            },
        },
        old(board).settled() ==> final(board).settled(),
{
    let color = match board.active_color {
        Some(color) => color,
        None => {
            return ;
        },
    };
    let moves = board.get_valid_moves(&Some(color), &true);
    if moves.len() != 0 {
        return ;
    }
    if board.in_check(&color) {
        board.game_end_status = Some(GameEndStatus::Checkmate);
        board.winner = Some(color.opposite());
    } else {
        board.game_end_status = Some(GameEndStatus::Stalemate);
    }
    board.active_color = None;
    assert(legal_moves(board.placement(), board.rights(), Some(color)).len() == 0);
}

} // verus!
