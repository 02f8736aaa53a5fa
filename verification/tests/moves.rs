use chess_rules::castling_rights::{contains_char, CastlingRights};
use chess_rules::chess_board::turns::reset_board_state;
use chess_rules::chess_board::ChessBoard;
use chess_rules::chess_move::Move;
use chess_rules::events::{PieceCreateEvent, PieceMoveEvent, RequestMoveEvent, ResetBoardEvent};
use chess_rules::fen::Fen;
use chess_rules::piece::{PieceColor, PieceType};
use chess_rules::position::BoardPosition;

fn board_of(fen_string: &str) -> ChessBoard {
    let fen = Fen::from_string(fen_string);
    let mut board = ChessBoard::empty_board();
    let mut created: Vec<PieceCreateEvent> = Vec::new();
    reset_board_state(&ResetBoardEvent::new(fen), &mut board, &mut created);
    board
}

fn record(
    from: (usize, usize),
    to: (usize, usize),
    piece_type: PieceType,
    piece_color: PieceColor,
    is_capture: bool,
    is_castle: bool,
) -> Move {
    Move {
        from: BoardPosition::new(from.0, from.1),
        to: BoardPosition::new(to.0, to.1),
        piece_type,
        piece_color,
        is_capture,
        is_castle,
    }
}

#[test]
fn from_board_reads_the_move_off_the_board() {
    let board = board_of("rnb1kb1r/pp2pp1p/5n2/qN1p2p1/4P3/5N2/PPPP1PPP/R1BQK2R w KQkq - 0 1");
    let capture = Move::from_board(BoardPosition::new(3, 1), BoardPosition::new(1, 0), &board);
    assert_eq!(
        capture,
        record((3, 1), (1, 0), PieceType::Knight, PieceColor::White, true, false)
    );
    assert_eq!(*capture.from(), BoardPosition::new(3, 1));
    assert_eq!(*capture.to(), BoardPosition::new(1, 0));
    assert_eq!(*capture.piece_type(), PieceType::Knight);
    assert_eq!(*capture.piece_color(), PieceColor::White);
    assert!(capture.is_capture());
    assert!(!capture.is_castle());
    let castle = Move::from_board(BoardPosition::new(7, 4), BoardPosition::new(7, 6), &board);
    assert_eq!(
        castle,
        record((7, 4), (7, 6), PieceType::King, PieceColor::White, false, true)
    );
    let long_castle = Move::from_board(BoardPosition::new(7, 4), BoardPosition::new(7, 2), &board);
    assert!(long_castle.is_castle());
    // Two files sideways and a piece in the way: a castle and a capture at once.
    assert!(long_castle.is_capture());
    // A rook that goes two files sideways does not castle.
    let rook = Move::from_board(BoardPosition::new(7, 7), BoardPosition::new(7, 5), &board);
    assert_eq!(
        rook,
        record((7, 7), (7, 5), PieceType::Rook, PieceColor::White, false, false)
    );
    // A king that goes two ranks ahead on its file does not castle either.
    let upward = Move::from_board(BoardPosition::new(7, 4), BoardPosition::new(5, 4), &board);
    assert!(!upward.is_castle());
    let black = Move::from_board(BoardPosition::new(3, 0), BoardPosition::new(3, 1), &board);
    assert_eq!(
        black,
        record((3, 0), (3, 1), PieceType::Queen, PieceColor::Black, true, false)
    );
}

#[test]
fn algebraic_notation_of_moves() {
    let white = PieceColor::White;
    assert_eq!(
        record((7, 4), (7, 6), PieceType::King, white, false, true).as_algebraic(),
        "0-0"
    );
    assert_eq!(
        record((7, 4), (7, 2), PieceType::King, white, false, true).as_algebraic(),
        "0-0-0"
    );
    assert_eq!(
        record((6, 4), (4, 4), PieceType::Pawn, white, false, false).as_algebraic(),
        "e4"
    );
    assert_eq!(
        record((4, 4), (3, 3), PieceType::Pawn, white, true, false).as_algebraic(),
        "exd5"
    );
    assert_eq!(
        record((5, 2), (3, 1), PieceType::Knight, white, true, false).as_algebraic(),
        "Nxb5"
    );
    assert_eq!(
        record((7, 5), (4, 2), PieceType::Bishop, white, false, false).as_algebraic(),
        "Bc4"
    );
    assert_eq!(
        record((0, 0), (7, 0), PieceType::Rook, PieceColor::Black, true, false).as_algebraic(),
        "Rxa1"
    );
    assert_eq!(
        record((0, 3), (0, 7), PieceType::Queen, PieceColor::Black, false, false).as_algebraic(),
        "Qh8"
    );
    assert_eq!(
        record((0, 4), (1, 4), PieceType::King, PieceColor::Black, false, false).as_algebraic(),
        "Ke7"
    );
    assert_eq!(
        record((1, 6), (2, 6), PieceType::Pawn, PieceColor::Black, false, false).as_algebraic(),
        "g6"
    );
}

#[test]
fn files_are_lettered_from_a_to_h() {
    let letters = ["a", "b", "c", "d", "e", "f", "g", "h"];
    for file in 0..8 {
        assert_eq!(Move::file_to_string(file), letters[file]);
    }
}

#[test]
fn events_carry_what_they_were_given() {
    let from = BoardPosition::new(1, 2);
    let to = BoardPosition::new(3, 4);
    let moved = PieceMoveEvent::new(from, to);
    assert_eq!(*moved.from(), from);
    assert_eq!(*moved.to(), to);
    let piece_move = record((1, 2), (3, 4), PieceType::Rook, PieceColor::Black, false, false);
    let request = RequestMoveEvent::new(piece_move);
    assert_eq!(*request.piece_move(), piece_move);
    let fen = Fen::from_string("8/8/8/8/8/8/8/K6k b - - 3 9");
    let reset = ResetBoardEvent::new(fen);
    assert_eq!(*reset.fen().fullmove_number(), 9);
    assert_eq!(*reset.fen().active_color(), PieceColor::Black);
    let created = PieceCreateEvent {
        position: to,
        piece_type: PieceType::Bishop,
        color: PieceColor::White,
    };
    assert_eq!(*created.position(), to);
    assert_eq!(*created.piece_type(), PieceType::Bishop);
    assert_eq!(*created.color(), PieceColor::White);
}

#[test]
fn castling_rights_are_read_letter_by_letter() {
    assert_eq!(
        CastlingRights::from_fen_string("KQkq"),
        CastlingRights {
            white: [true, true],
            black: [true, true]
        }
    );
    assert_eq!(
        CastlingRights::from_fen_string("-"),
        CastlingRights {
            white: [false, false],
            black: [false, false]
        }
    );
    assert_eq!(
        CastlingRights::from_fen_string("qK"),
        CastlingRights {
            white: [true, false],
            black: [false, true]
        }
    );
    assert_eq!(
        CastlingRights::from_fen_string("xQyk"),
        CastlingRights {
            white: [false, true],
            black: [true, false]
        }
    );
    assert_eq!(CastlingRights::default(), CastlingRights::from_fen_string(""));
    assert!(contains_char("KQkq", 'k'));
    assert!(!contains_char("KQq", 'k'));
    assert!(!contains_char("", 'k'));
}

#[test]
fn castle_direction_is_told_by_its_sign() {
    let rights = CastlingRights {
        white: [true, false],
        black: [false, true],
    };
    assert!(rights.valid_castle_direction(&PieceColor::White, 2));
    assert!(rights.valid_castle_direction(&PieceColor::White, 1));
    assert!(!rights.valid_castle_direction(&PieceColor::White, -2));
    assert!(!rights.valid_castle_direction(&PieceColor::White, 0));
    assert!(!rights.valid_castle_direction(&PieceColor::Black, 2));
    assert!(rights.valid_castle_direction(&PieceColor::Black, -2));
    assert!(rights.valid_castle_direction(&PieceColor::Black, i32::MIN));
    assert!(!rights.valid_castle_direction(&PieceColor::Black, 0));
}

#[test]
fn moves_of_king_and_rook_close_castles() {
    let all = CastlingRights {
        white: [true, true],
        black: [true, true],
    };
    let mut rights = all;
    rights.update_after_move(&record((7, 4), (6, 4), PieceType::King, PieceColor::White, false, false));
    assert_eq!(rights.white, [false, false]);
    assert_eq!(rights.black, [true, true]);
    let mut rights = all;
    rights.update_after_move(&record((0, 0), (0, 3), PieceType::Rook, PieceColor::Black, false, false));
    assert_eq!(rights.black, [true, false]);
    assert_eq!(rights.white, [true, true]);
    let mut rights = all;
    rights.update_after_move(&record((0, 7), (0, 5), PieceType::Rook, PieceColor::Black, false, false));
    assert_eq!(rights.black, [false, true]);
    let mut rights = all;
    rights.update_after_move(&record((4, 3), (4, 5), PieceType::Rook, PieceColor::White, false, false));
    assert_eq!(rights, all);
    let mut rights = all;
    rights.update_after_move(&record((7, 0), (5, 1), PieceType::Knight, PieceColor::White, false, false));
    assert_eq!(rights, all);
}

#[test]
fn a_closed_castle_stays_closed() {
    let mut rights = CastlingRights {
        white: [true, true],
        black: [true, true],
    };
    let moves = [
        record((7, 7), (7, 6), PieceType::Rook, PieceColor::White, false, false),
        record((0, 4), (0, 3), PieceType::King, PieceColor::Black, false, false),
        record((7, 6), (7, 7), PieceType::Rook, PieceColor::White, false, false),
        record((0, 3), (0, 4), PieceType::King, PieceColor::Black, false, false),
        record((6, 4), (4, 4), PieceType::Pawn, PieceColor::White, false, false),
        record((7, 0), (7, 1), PieceType::Rook, PieceColor::White, false, false),
        record((1, 0), (2, 0), PieceType::Pawn, PieceColor::Black, false, false),
    ];
    for piece_move in moves {
        let before = rights;
        rights.update_after_move(&piece_move);
        for side in 0..2 {
            assert!(before.white[side] || !rights.white[side]);
            assert!(before.black[side] || !rights.black[side]);
        }
    }
    assert_eq!(
        rights,
        CastlingRights {
            white: [false, false],
            black: [false, false]
        }
    );
}
