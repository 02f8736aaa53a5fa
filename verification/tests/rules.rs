use chess_rules::chess_board::turns::{
    castle_lacks_partner, game_end_checker, make_move, reset_board_state, setup,
};
use chess_rules::chess_board::{ChessBoard, GameEndStatus};
use chess_rules::chess_move::Move;
use chess_rules::events::{PieceCreateEvent, PieceMoveEvent, RequestMoveEvent, ResetBoardEvent};
use chess_rules::fen::Fen;
use chess_rules::piece::{PieceColor, PieceType};
use chess_rules::position::{BoardPosition, BOARD_SIZE};

fn game(fen_string: &str) -> ChessBoard {
    let fen = Fen::from_string(fen_string);
    let mut board = ChessBoard::empty_board();
    let mut created: Vec<PieceCreateEvent> = Vec::new();
    reset_board_state(&ResetBoardEvent::new(fen), &mut board, &mut created);
    board
}

fn at(rank: usize, file: usize) -> BoardPosition {
    BoardPosition::new(rank, file)
}

fn ask(board: &mut ChessBoard, from: BoardPosition, to: BoardPosition) -> Vec<PieceMoveEvent> {
    let piece_move = Move::from_board(from, to, board);
    assert!(!castle_lacks_partner(board, &piece_move));
    let mut moved: Vec<PieceMoveEvent> = Vec::new();
    make_move(&RequestMoveEvent::new(piece_move), &mut moved, board);
    moved
}

fn snapshot(board: &ChessBoard) -> Vec<Option<(PieceType, PieceColor, BoardPosition)>> {
    let mut cells = Vec::new();
    for rank in 0..BOARD_SIZE {
        for file in 0..BOARD_SIZE {
            cells.push(
                board
                    .get_piece(&at(rank, file))
                    .map(|piece| (piece.get_type(), piece.get_color(), piece.get_position())),
            );
        }
    }
    cells
}

#[test]
fn setup_announces_every_piece_in_scan_order() {
    let mut board = ChessBoard::default();
    let mut created: Vec<PieceCreateEvent> = Vec::new();
    setup(&mut created, &mut board);
    assert_eq!(created.len(), 32);
    assert_eq!(
        created[0],
        PieceCreateEvent {
            position: at(0, 0),
            piece_type: PieceType::Rook,
            color: PieceColor::Black
        }
    );
    assert_eq!(
        created[4],
        PieceCreateEvent {
            position: at(0, 4),
            piece_type: PieceType::King,
            color: PieceColor::Black
        }
    );
    assert_eq!(
        created[8],
        PieceCreateEvent {
            position: at(1, 0),
            piece_type: PieceType::Pawn,
            color: PieceColor::Black
        }
    );
    assert_eq!(
        created[31],
        PieceCreateEvent {
            position: at(7, 7),
            piece_type: PieceType::Rook,
            color: PieceColor::White
        }
    );
    assert_eq!(
        *board.castling_rights(),
        chess_rules::castling_rights::CastlingRights {
            white: [true, true],
            black: [true, true]
        }
    );
    assert_eq!(*board.winner(), None);
    assert_eq!(*board.game_end_status(), None);
    assert_eq!(board.get_valid_moves(board.active_color(), &true).len(), 20);
}

#[test]
fn add_piece_puts_a_fresh_piece_on_its_square() {
    let mut board = ChessBoard::empty_board();
    let mut created: Vec<PieceCreateEvent> = Vec::new();
    board.add_piece(PieceColor::Black, PieceType::Queen, at(2, 3), &mut created);
    let piece = board.get_piece(&at(2, 3)).unwrap();
    assert_eq!(piece.get_type(), PieceType::Queen);
    assert_eq!(piece.get_color(), PieceColor::Black);
    assert_eq!(piece.get_position(), at(2, 3));
    assert_eq!(piece.get_starting_position(), at(2, 3));
    assert_eq!(
        created,
        vec![PieceCreateEvent {
            position: at(2, 3),
            piece_type: PieceType::Queen,
            color: PieceColor::Black
        }]
    );
    assert!(board.get_piece(&at(3, 2)).is_none());
}

#[test]
fn a_clone_is_a_board_of_its_own() {
    let board = game("rnbqkbnr/pppppppp/8/8/8/8/PPPPPPPP/RNBQKBNR w KQkq - 0 1");
    let mut copy = board.clone();
    assert_eq!(snapshot(&board), snapshot(&copy));
    assert_eq!(copy.active_color(), board.active_color());
    assert_eq!(copy.move_number(), board.move_number());
    copy.move_piece(&at(6, 4), &at(4, 4));
    assert!(board.get_piece(&at(6, 4)).is_some());
    assert!(copy.get_piece(&at(6, 4)).is_none());
}

#[test]
fn move_piece_takes_what_stands_on_the_destination() {
    let mut board = game("rnbqkbnr/pppppppp/8/8/8/8/PPPPPPPP/RNBQKBNR w KQkq - 0 1");
    board.move_piece(&at(7, 0), &at(0, 0));
    let piece = board.get_piece(&at(0, 0)).unwrap();
    assert_eq!(piece.get_type(), PieceType::Rook);
    assert_eq!(piece.get_color(), PieceColor::White);
    assert_eq!(piece.get_position(), at(0, 0));
    assert_eq!(piece.get_starting_position(), at(7, 0));
    assert!(board.get_piece(&at(7, 0)).is_none());
    // A move to the square the piece stands on leaves the square empty.
    board.move_piece(&at(0, 0), &at(0, 0));
    assert!(board.get_piece(&at(0, 0)).is_none());
}

#[test]
fn malformed_and_untimely_moves_are_not_valid() {
    let board = game("rnb1kb1r/pp2pp1p/5n2/qN1p2p1/4P3/5N2/PPPP1PPP/R1BQK2R w KQkq - 0 1");
    let white = Some(PieceColor::White);
    let good = Move::from_board(at(5, 5), at(3, 6), &board);
    assert!(board.valid_move(&good, &white, &true));
    assert!(board.valid_move(&good, &white, &false));
    // Nobody to move, or the other side to move.
    assert!(!board.valid_move(&good, &None, &true));
    assert!(!board.valid_move(&good, &Some(PieceColor::Black), &true));
    // Marked as a capture and as a castle at once.
    let both = Move {
        is_castle: true,
        ..good
    };
    assert!(!board.valid_move(&both, &white, &true));
    // No piece on the source square.
    let empty = Move {
        from: at(4, 0),
        to: at(3, 0),
        ..good
    };
    assert!(!board.valid_move(&empty, &white, &true));
    // A piece of its own side on the destination.
    let own = Move::from_board(at(7, 0), at(6, 0), &board);
    assert!(!board.valid_move(&own, &white, &true));
    // A piece in the way of a piece that does not jump.
    let blocked = Move::from_board(at(7, 0), at(4, 0), &board);
    assert!(!board.valid_move(&blocked, &white, &false));
    // A pawn takes diagonally only, and only what is there.
    assert!(!board.valid_move(&Move::from_board(at(4, 4), at(3, 5), &board), &white, &true));
    assert!(board.valid_move(&Move::from_board(at(4, 4), at(3, 3), &board), &white, &true));
    // A pawn away from its home rank has no double step.
    assert!(!board.valid_move(&Move::from_board(at(4, 4), at(2, 4), &board), &white, &true));
}

#[test]
fn a_pinned_piece_may_not_leave_its_king_in_check() {
    // The pawn on d2 shields the king on e1 from the queen on a5.
    let board = game("rnb1kb1r/pp2pp1p/5n2/qN1p2p1/4P3/5N2/PPPP1PPP/R1BQK2R w KQkq - 0 1");
    let push = Move::from_board(at(6, 3), at(5, 3), &board);
    assert!(board.valid_move(&push, board.active_color(), &false));
    assert!(!board.valid_move(&push, board.active_color(), &true));
    let listed = board.get_valid_moves(board.active_color(), &false);
    assert!(listed.contains(&push));
    assert_eq!(listed.len(), 32);
}

#[test]
fn no_valid_move_leaves_the_mover_in_check() {
    let positions = [
        "rnb1kb1r/pp2pp1p/5n2/qN1p2p1/4P3/5N2/PPPP1PPP/R1BQK2R w KQkq - 0 1",
        "rnb1kb1r/pp2pp1p/8/qN1p2N1/4P3/2Pn4/PP1P2PP/1RBQK2R w Kkq - 0 1",
        "rnb1kb1r/pp2p2p/5p2/qN1p2NQ/4P3/2Pn4/PP1P2PP/1RB2K1R b Kkq - 0 1",
        "r3k2r/8/8/8/8/8/8/R3K2R b KQkq - 0 1",
    ];
    for fen_string in positions {
        let board = game(fen_string);
        let color = board.active_color().unwrap();
        for piece_move in board.get_valid_moves(board.active_color(), &true) {
            assert!(board.valid_move(&piece_move, board.active_color(), &true));
            let mut after = board.clone();
            after.move_piece(piece_move.from(), piece_move.to());
            assert!(!after.in_check(&color));
        }
    }
}

#[test]
fn in_check_means_escape_only() {
    // White is in check by the knight on d3.
    let board = game("rnb1kb1r/pp2pp1p/8/qN1p2N1/4P3/2Pn4/PP1P2PP/1RBQK2R w Kkq - 0 1");
    let moves = board.get_valid_moves(board.active_color(), &true);
    let expected = vec![
        Move::from_board(at(7, 4), at(6, 4), &board),
        Move::from_board(at(7, 4), at(7, 5), &board),
    ];
    assert_eq!(moves, expected);
    // No castle out of check.
    let castle = Move::from_board(at(7, 4), at(7, 6), &board);
    assert!(castle.is_castle());
    assert!(!board.valid_move(&castle, board.active_color(), &true));
}

#[test]
fn castle_king_side_moves_king_and_rook() {
    let mut board = game("r3k2r/pppppppp/8/8/8/8/PPPPPPPP/R3K2R w KQkq - 0 1");
    let piece_move = Move::from_board(at(7, 4), at(7, 6), &board);
    assert!(piece_move.is_castle());
    assert!(board.valid_move(&piece_move, board.active_color(), &true));
    let moved = ask(&mut board, at(7, 4), at(7, 6));
    assert_eq!(
        moved,
        vec![
            PieceMoveEvent::new(at(7, 4), at(7, 6)),
            PieceMoveEvent::new(at(7, 7), at(7, 5))
        ]
    );
    let king = board.get_piece(&at(7, 6)).unwrap();
    assert_eq!(king.get_type(), PieceType::King);
    assert_eq!(king.get_color(), PieceColor::White);
    assert_eq!(king.get_position(), at(7, 6));
    let rook = board.get_piece(&at(7, 5)).unwrap();
    assert_eq!(rook.get_type(), PieceType::Rook);
    assert_eq!(rook.get_color(), PieceColor::White);
    assert_eq!(rook.get_position(), at(7, 5));
    assert!(board.get_piece(&at(7, 4)).is_none());
    assert!(board.get_piece(&at(7, 7)).is_none());
    // Both have moved: the king has no castle left in its geometry.
    assert_eq!(king.get_moves(false).len(), 5);
    assert!(!board.in_check(&PieceColor::White));
    assert_eq!(board.castling_rights().white, [false, false]);
    assert_eq!(board.castling_rights().black, [true, true]);
    assert_eq!(*board.active_color(), Some(PieceColor::Black));
    assert_eq!(board.past_moves(), &vec![piece_move]);
    assert_eq!(*board.move_number(), 1);
}

#[test]
fn castle_queen_side_moves_king_and_rook() {
    let mut board = game("r3k2r/pppppppp/8/8/8/8/PPPPPPPP/R3K2R b KQkq - 0 1");
    let moved = ask(&mut board, at(0, 4), at(0, 2));
    assert_eq!(
        moved,
        vec![
            PieceMoveEvent::new(at(0, 4), at(0, 2)),
            PieceMoveEvent::new(at(0, 0), at(0, 3))
        ]
    );
    assert_eq!(board.get_piece_type(&at(0, 2)), Some(PieceType::King));
    assert_eq!(board.get_piece_type(&at(0, 3)), Some(PieceType::Rook));
    assert_eq!(board.get_piece_color(&at(0, 3)), Some(PieceColor::Black));
    assert_eq!(board.get_piece(&at(0, 3)).unwrap().get_position(), at(0, 3));
    assert!(board.get_piece(&at(0, 4)).is_none());
    assert!(board.get_piece(&at(0, 0)).is_none());
    assert!(board.get_piece(&at(0, 1)).is_none());
    assert!(!board.in_check(&PieceColor::Black));
    assert_eq!(board.castling_rights().black, [false, false]);
    assert_eq!(*board.move_number(), 2);
    assert_eq!(*board.active_color(), Some(PieceColor::White));
}

#[test]
fn castle_needs_every_square_up_to_the_rook_empty() {
    // A knight on b1 stands between the king and the rook on a1.
    let board = game("r3k2r/pppppppp/8/8/8/8/PPPPPPPP/RN2K2R w KQkq - 0 1");
    let long_castle = Move::from_board(at(7, 4), at(7, 2), &board);
    assert!(long_castle.is_castle());
    assert!(!long_castle.is_capture());
    assert!(board.valid_move(&long_castle, board.active_color(), &false));
    assert!(!board.valid_move(&long_castle, board.active_color(), &true));
    let short_castle = Move::from_board(at(7, 4), at(7, 6), &board);
    assert!(board.valid_move(&short_castle, board.active_color(), &true));
}

#[test]
fn castle_needs_the_right_to_castle() {
    let board = game("r3k2r/pppppppp/8/8/8/8/PPPPPPPP/R3K2R w Qk - 0 1");
    let white = Some(PieceColor::White);
    let black = Some(PieceColor::Black);
    assert!(!board.valid_move(&Move::from_board(at(7, 4), at(7, 6), &board), &white, &true));
    assert!(board.valid_move(&Move::from_board(at(7, 4), at(7, 2), &board), &white, &true));
    assert!(board.valid_move(&Move::from_board(at(0, 4), at(0, 6), &board), &black, &true));
    assert!(!board.valid_move(&Move::from_board(at(0, 4), at(0, 2), &board), &black, &true));
}

#[test]
fn castle_may_not_end_in_check() {
    // The rook on g8 looks down the g-file at g1.
    let board = game("4k1r1/8/8/8/8/8/8/R3K2R w KQ - 0 1");
    let white = Some(PieceColor::White);
    assert!(!board.valid_move(&Move::from_board(at(7, 4), at(7, 6), &board), &white, &true));
    assert!(board.valid_move(&Move::from_board(at(7, 4), at(7, 2), &board), &white, &true));
}

#[test]
fn a_castle_without_a_rook_in_the_corner_is_found_out() {
    let mut board = game("4k3/8/8/8/8/8/8/4K3 w K - 0 1");
    let castle = Move::from_board(at(7, 4), at(7, 6), &board);
    assert!(castle.is_castle());
    assert!(board.valid_move(&castle, board.active_color(), &true));
    assert!(castle_lacks_partner(&board, &castle));
    let step = Move::from_board(at(7, 4), at(7, 5), &board);
    assert!(!castle_lacks_partner(&board, &step));
    let moved = ask(&mut board, at(7, 4), at(7, 5));
    assert_eq!(moved.len(), 1);
    // With the rook in place nothing is lacking.
    let board = game("4k3/8/8/8/8/8/8/4K2R w K - 0 1");
    assert!(!castle_lacks_partner(&board, &castle));
    // Nor is it for a castle that is not valid.
    let board = game("4k3/8/8/8/8/8/8/4K3 w - - 0 1");
    assert!(!castle_lacks_partner(&board, &castle));
}

#[test]
fn only_a_rook_of_the_mover_is_a_partner_to_castle_with() {
    // A king that castles into the empty corner is not its own partner.
    let board = game("8/8/8/8/8/8/8/5K2 w K - 0 1");
    let into_corner = Move::from_board(at(7, 5), at(7, 7), &board);
    assert!(into_corner.is_castle());
    assert!(board.valid_move(&into_corner, board.active_color(), &true));
    assert!(castle_lacks_partner(&board, &into_corner));
    // A knight of its own side in the corner is no partner.
    let board = game("4k3/8/8/8/8/8/8/4K2N w K - 0 1");
    let castle = Move::from_board(at(7, 4), at(7, 6), &board);
    assert!(board.valid_move(&castle, board.active_color(), &true));
    assert!(castle_lacks_partner(&board, &castle));
    // Nor is a piece of the other side.
    let board = game("4k3/8/8/8/8/8/8/4K2n w K - 0 1");
    let castle = Move::from_board(at(7, 4), at(7, 6), &board);
    assert!(board.valid_move(&castle, board.active_color(), &true));
    assert!(castle_lacks_partner(&board, &castle));
    // On the queen side the partner stands on the a-file.
    let board = game("r3k3/8/8/8/8/8/8/4K3 b q - 0 1");
    let long_castle = Move::from_board(at(0, 4), at(0, 2), &board);
    assert!(board.valid_move(&long_castle, board.active_color(), &true));
    assert!(!castle_lacks_partner(&board, &long_castle));
    let board = game("1r2k3/8/8/8/8/8/8/4K3 b q - 0 1");
    let long_castle = Move::from_board(at(0, 4), at(0, 2), &board);
    assert!(!board.valid_move(&long_castle, board.active_color(), &true));
    let board = game("4k3/8/8/8/8/8/8/4K3 b q - 0 1");
    let long_castle = Move::from_board(at(0, 4), at(0, 2), &board);
    assert!(castle_lacks_partner(&board, &long_castle));
}

#[test]
fn a_king_on_the_c_file_may_castle_towards_the_a_file() {
    let mut board = game("4k3/8/8/8/8/8/8/R1K5 w Q - 0 1");
    let castle = Move::from_board(at(7, 2), at(7, 0), &board);
    // The rook stands on the destination: a castle and a capture at once.
    assert!(castle.is_castle());
    assert!(castle.is_capture());
    assert!(!board.valid_move(&castle, board.active_color(), &true));
    assert!(ask(&mut board, at(7, 2), at(7, 0)).is_empty());
    // With the corner empty the king may go there, but has no partner.
    let board = game("4k3/8/8/8/8/8/8/2K5 w Q - 0 1");
    let castle = Move::from_board(at(7, 2), at(7, 0), &board);
    assert!(castle.is_castle());
    assert!(board.valid_move(&castle, board.active_color(), &true));
    assert!(castle_lacks_partner(&board, &castle));
    assert!(board
        .get_valid_moves(board.active_color(), &true)
        .contains(&castle));
}

#[test]
fn the_move_number_is_only_a_limit_for_a_valid_move_of_black() {
    // White moves at the last number that fits: nothing is counted.
    let mut board = game("4k3/8/8/8/8/8/8/4K3 w - - 0 2147483647");
    let moved = ask(&mut board, at(7, 4), at(6, 4));
    assert_eq!(moved.len(), 1);
    assert_eq!(*board.move_number(), 2147483647);
    assert_eq!(*board.active_color(), Some(PieceColor::Black));
    // A move of Black that is not valid is passed over there too.
    let mut moved: Vec<PieceMoveEvent> = Vec::new();
    let jump = Move::from_board(at(0, 4), at(4, 4), &board);
    make_move(&RequestMoveEvent::new(jump), &mut moved, &mut board);
    assert!(moved.is_empty());
    assert_eq!(*board.move_number(), 2147483647);
    assert_eq!(*board.active_color(), Some(PieceColor::Black));
}

#[test]
fn with_two_kings_the_rook_s_step_may_lay_the_other_king_bare() {
    // The king in the corner is the one that is looked after; the rook on h4
    // shields it until it goes along with the castle of the king on e4.
    let mut board = game("7K/8/8/8/4K2R/8/8/k6r w K - 0 1");
    assert!(!board.in_check(&PieceColor::White));
    let castle = Move::from_board(at(4, 4), at(4, 6), &board);
    assert!(castle.is_castle());
    assert!(board.valid_move(&castle, board.active_color(), &true));
    assert!(!castle_lacks_partner(&board, &castle));
    let moved = ask(&mut board, at(4, 4), at(4, 6));
    assert_eq!(moved.len(), 2);
    assert_eq!(board.get_piece_type(&at(4, 5)), Some(PieceType::Rook));
    assert!(board.in_check(&PieceColor::White));
}

#[test]
fn a_move_that_is_not_valid_changes_nothing() {
    let mut board = game("rnb1kb1r/pp2pp1p/5n2/qN1p2p1/4P3/5N2/PPPP1PPP/R1BQK2R w KQkq - 0 1");
    let before = snapshot(&board);
    let moved = ask(&mut board, at(6, 3), at(5, 3));
    assert!(moved.is_empty());
    assert_eq!(snapshot(&board), before);
    assert_eq!(*board.active_color(), Some(PieceColor::White));
    assert_eq!(board.past_moves().len(), 0);
    assert_eq!(*board.move_number(), 1);
    assert_eq!(board.castling_rights().white, [true, true]);
    // A black move while White is to move.
    let moved = ask(&mut board, at(1, 0), at(2, 0));
    assert!(moved.is_empty());
    assert_eq!(snapshot(&board), before);
}

#[test]
fn rights_once_lost_do_not_come_back_in_a_game() {
    let mut board = game("r3k2r/pppppppp/8/8/8/8/PPPPPPPP/R3K2R w KQkq - 0 1");
    let turns = [
        ((7, 7), (7, 6)),
        ((0, 0), (0, 1)),
        ((7, 6), (7, 7)),
        ((0, 1), (0, 0)),
        ((7, 4), (7, 5)),
        ((0, 4), (0, 3)),
        ((7, 5), (7, 4)),
        ((0, 3), (0, 4)),
    ];
    let mut earlier = *board.castling_rights();
    for (from, to) in turns {
        let moved = ask(&mut board, at(from.0, from.1), at(to.0, to.1));
        assert_eq!(moved.len(), 1);
        let now = *board.castling_rights();
        for side in 0..2 {
            assert!(earlier.white[side] || !now.white[side]);
            assert!(earlier.black[side] || !now.black[side]);
        }
        earlier = now;
    }
    assert_eq!(board.castling_rights().white, [false, false]);
    assert_eq!(board.castling_rights().black, [false, false]);
    assert_eq!(*board.move_number(), 5);
    // Kings and rooks are back where they began, and still no castle is valid.
    let castle = Move::from_board(at(7, 4), at(7, 6), &board);
    assert!(!board.valid_move(&castle, board.active_color(), &true));
}

#[test]
fn checkmate_ends_the_game_for_the_other_side() {
    let mut board = game("rnb1kbnr/pppp1ppp/8/4p3/6Pq/5P2/PPPPP2P/RNBQKBNR w KQkq - 1 3");
    assert!(board.in_check(&PieceColor::White));
    assert!(board.get_valid_moves(board.active_color(), &true).is_empty());
    game_end_checker(&mut board);
    assert_eq!(*board.game_end_status(), Some(GameEndStatus::Checkmate));
    assert_eq!(*board.winner(), Some(PieceColor::Black));
    assert_eq!(*board.active_color(), None);
    assert!(board.get_valid_moves(board.active_color(), &true).is_empty());
    assert!(board.get_valid_moves(board.active_color(), &false).is_empty());
    // The side that lost has no valid move and is in check.
    assert!(board.get_valid_moves(&Some(PieceColor::White), &true).is_empty());
    assert!(board.in_check(&PieceColor::White));
    // Nothing moves any more.
    let before = snapshot(&board);
    let moved = ask(&mut board, at(1, 0), at(2, 0));
    assert!(moved.is_empty());
    assert_eq!(snapshot(&board), before);
    // Looking again changes nothing.
    game_end_checker(&mut board);
    assert_eq!(*board.game_end_status(), Some(GameEndStatus::Checkmate));
    assert_eq!(*board.winner(), Some(PieceColor::Black));
}

#[test]
fn stalemate_ends_the_game_for_nobody() {
    let mut board = game("7k/5Q2/6K1/8/8/8/8/8 b - - 0 1");
    assert!(!board.in_check(&PieceColor::Black));
    game_end_checker(&mut board);
    assert_eq!(*board.game_end_status(), Some(GameEndStatus::Stalemate));
    assert_eq!(*board.winner(), None);
    assert_eq!(*board.active_color(), None);
    assert!(board.get_valid_moves(board.active_color(), &true).is_empty());
    assert!(board.get_valid_moves(&Some(PieceColor::Black), &true).is_empty());
    assert!(!board.in_check(&PieceColor::Black));
    // The other side would have moves, were it to move.
    assert!(!board.get_valid_moves(&Some(PieceColor::White), &true).is_empty());
}

#[test]
fn a_game_that_goes_on_is_left_alone() {
    let mut board = game("rnbqkbnr/pppppppp/8/8/8/8/PPPPPPPP/RNBQKBNR w KQkq - 0 1");
    game_end_checker(&mut board);
    assert_eq!(*board.game_end_status(), None);
    assert_eq!(*board.winner(), None);
    assert_eq!(*board.active_color(), Some(PieceColor::White));
    let mut empty = ChessBoard::empty_board();
    game_end_checker(&mut empty);
    assert_eq!(*empty.game_end_status(), None);
    assert_eq!(*empty.active_color(), None);
}

#[test]
fn fools_mate_played_out() {
    let mut board = ChessBoard::empty_board();
    let mut created: Vec<PieceCreateEvent> = Vec::new();
    setup(&mut created, &mut board);
    for (from, to) in [((6, 5), (5, 5)), ((1, 4), (3, 4)), ((6, 6), (4, 6)), ((0, 3), (4, 7))] {
        let moved = ask(&mut board, at(from.0, from.1), at(to.0, to.1));
        assert_eq!(moved, vec![PieceMoveEvent::new(at(from.0, from.1), at(to.0, to.1))]);
        game_end_checker(&mut board);
    }
    assert_eq!(*board.game_end_status(), Some(GameEndStatus::Checkmate));
    assert_eq!(*board.winner(), Some(PieceColor::Black));
    assert_eq!(*board.active_color(), None);
    assert_eq!(*board.move_number(), 3);
    let notation: Vec<String> = board.past_moves().iter().map(|m| m.as_algebraic()).collect();
    assert_eq!(notation, vec!["f3", "e5", "g4", "Qh4"]);
}

#[test]
fn a_board_without_a_king_looks_for_it_in_the_corner() {
    // No white king: what stands in the top left corner is taken for it.
    let board = game("R6r/8/8/8/8/8/8/7k b - - 0 1");
    assert!(board.in_check(&PieceColor::White));
    let board = game("R7/8/8/8/8/8/8/6rk b - - 0 1");
    assert!(!board.in_check(&PieceColor::White));
}

#[test]
fn between_squares_next_to_each_other_nothing_stands() {
    let board = game("rnbqkbnr/pppppppp/8/8/8/8/PPPPPPPP/RNBQKBNR w KQkq - 0 1");
    assert!(board.no_piece_between_squares(&at(0, 0), &at(0, 1)));
    assert!(board.no_piece_between_squares(&at(0, 0), &at(0, 0)));
    assert!(board.no_piece_between_squares(&at(0, 0), &at(1, 1)));
    assert!(!board.no_piece_between_squares(&at(0, 0), &at(0, 2)));
    assert!(board.no_piece_between_squares(&at(1, 0), &at(6, 0)));
    assert!(!board.no_piece_between_squares(&at(0, 0), &at(7, 0)));
    assert!(!board.no_piece_between_squares(&at(7, 7), &at(0, 0)));
    assert!(board.no_piece_between_squares(&at(6, 7), &at(1, 2)));
    assert!(board.no_piece_between_squares(&at(5, 7), &at(5, 0)));
}
