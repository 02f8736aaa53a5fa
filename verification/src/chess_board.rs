//! The board: sixty-four squares with the pieces on them, the side to move,
//! the moves made so far, the castling rights, and how the game ended.

use vstd::prelude::*;
use crate::castling_rights::CastlingRights;
use crate::chess_move::Move;
use crate::events::PieceCreateEvent;
use crate::fen::{Fen, FenData};
use crate::piece::{
    aligned, lemma_sliding_moves_are_aligned, new_piece, Piece, PieceColor, PieceType,
};
use crate::position::{lemma_nth_on_board, BoardPosition};
use crate::rules::{
    accepted, after_move, all_moves_from, along, first_king, in_check, king_square, legal_moves,
    moves_from, moves_upto, path_clear, pseudo_legal, pseudo_moves, ray_square, span, valid_moves,
};

pub mod turns;

verus! {

/// How a game came to its end.
#[derive(Clone, Copy, Debug, PartialEq, Eq, Structural)]
pub enum GameEndStatus {
    Checkmate,
    Resignation,
    Stalemate,
    DeadPosition,
    FlagFall,
}

/// The sixty-four squares, by rank and file, with the pieces on them. Every
/// piece knows the square it stands on.
#[derive(Clone, Copy, Debug)]
pub struct Grid {
    pub(crate) cells: [[Option<Piece>; 8]; 8],
}

impl Grid {
    /// Every piece knows the square it stands on, and was created on a
    /// square of the board.
    #[verifier::type_invariant]
    pub open(crate) spec fn pieces_know_their_squares(&self) -> bool {
        forall|r: int, f: int|
            0 <= r < 8 && 0 <= f < 8 ==> match #[trigger] self.cells[r][f] {
                Some(piece) => piece.square() == BoardPosition::at(r, f) && piece.origin().on_board(),
                None => true,
            }
    }
}

/// A game in progress or at its end.
#[derive(Debug)]
pub struct ChessBoard {
    pub(crate) board: Grid,
    pub(crate) active_color: Option<PieceColor>,
    pub(crate) past_moves: Vec<Move>,
    pub(crate) move_number: i32,
    pub(crate) castling_rights: CastlingRights,
    pub(crate) winner: Option<PieceColor>,
    pub(crate) game_end_status: Option<GameEndStatus>,
}

/// What stands on `p`, if anything.
pub open spec fn piece_on(board: Map<BoardPosition, Piece>, p: BoardPosition) -> Option<Piece> {
    if board.dom().contains(p) {
        Some(board[p])
    } else {
        None
    }
}

/// The pieces that a board description puts on the board: on each square
/// that it names, a piece of the colour and kind it names, which stands
/// there and has not moved. Only the first `n` squares of scan order count.
pub open spec fn fresh_pieces(placement: Map<BoardPosition, (PieceColor, PieceType)>, n: int) -> Map<
    BoardPosition,
    Piece,
> {
    Map::new(
        |p: BoardPosition| placement.dom().contains(p) && p.on_board() && p.scan_index() < n,
        |p: BoardPosition|
            {
                let (color, kind) = placement[p];
                Piece::fresh(kind, color, p)
            },
    )
}

/// The notices of the pieces that a board description puts on the first `n`
/// squares of scan order, in that order.
pub open spec fn creations(placement: Map<BoardPosition, (PieceColor, PieceType)>, n: nat) -> Seq<
    PieceCreateEvent,
>
    decreases n,
{
    if n == 0 {
        Seq::empty()
    } else {
        let before = creations(placement, (n - 1) as nat);
        let p = BoardPosition::nth(n - 1);
        if placement.dom().contains(p) {
            let (color, kind) = placement[p];
            before.push(PieceCreateEvent { position: p, piece_type: kind, color })
        } else {
            before
        }
    }
}

/// One step from `at` along an axis on which the way leads from `from` to `to`.
fn step_towards(at: usize, from: usize, to: usize) -> (next: usize)
    requires
        to > from ==> at < 7,
        to < from ==> at > 0,
    ensures
        next == at + along(to - from, 1),
{
    if to > from {
        at + 1
    } else if to < from {
        at - 1
    } else {
        at
    }
}

/// A list with the same moves as `moves`.
fn copy_moves(moves: &Vec<Move>) -> (copy: Vec<Move>)
    ensures
        copy@ == moves@,
{
    let mut copy: Vec<Move> = Vec::new();
    let mut i: usize = 0;
    while i < moves.len()
        invariant
            i <= moves.len(),
            copy@ == moves@.subrange(0, i as int),
        decreases moves.len() - i,
    {
        copy.push(moves[i]);
        assert(copy@ =~= moves@.subrange(0, i + 1));
        i += 1;
    }
    assert(copy@ =~= moves@);
    copy
}

impl Default for ChessBoard {
    /// A board without pieces.
    fn default() -> (board: Self)
        ensures
            board.placement() == Map::<BoardPosition, Piece>::empty(),
            board.to_move() is None,
            board.history() == Seq::<Move>::empty(),
            board.turn() == 1,
            board.rights().none(),
            board.victor() is None,
            board.ending() is None,
            board.settled(),
    {
        ChessBoard::empty_board()
    }
}

impl Clone for ChessBoard {
    /// A second board in the same state, independent of the first.
    fn clone(&self) -> (copy: Self)
        ensures
            copy.placement() == self.placement(),
            copy.same_state_around_board(self),
    {
        proof {
            use_type_invariant(&self.board);
        }
        ChessBoard {
            board: self.board,
            active_color: self.active_color,
            past_moves: copy_moves(&self.past_moves),
            move_number: self.move_number,
            castling_rights: self.castling_rights,
            winner: self.winner,
            game_end_status: self.game_end_status,
        }
    }
}

impl ChessBoard {
    /// The occupied squares and the pieces on them.
    pub open(crate) spec fn placement(&self) -> Map<BoardPosition, Piece> {
        Map::new(
            |p: BoardPosition| p.on_board() && self.board.cells[p.rank_idx()][p.file_idx()] is Some,
            |p: BoardPosition| self.board.cells[p.rank_idx()][p.file_idx()]->0,
        )
    }

    /// Every piece knows the square it stands on, and was created on a
    /// square of the board. This holds of every board.
    pub open(crate) spec fn well_placed(&self) -> bool {
        self.board.pieces_know_their_squares()
    }

    /// The side to move; none once the game has ended.
    pub open(crate) spec fn to_move(&self) -> Option<PieceColor> {
        self.active_color
    }

    /// The moves made so far, oldest first.
    pub open(crate) spec fn history(&self) -> Seq<Move> {
        self.past_moves@
    }

    /// The number of the move that is being played.
    pub open(crate) spec fn turn(&self) -> int {
        self.move_number as int
    }

    /// The castles still open to each side.
    pub open(crate) spec fn rights(&self) -> CastlingRights {
        self.castling_rights
    }

    /// The side that won, if one did.
    pub open(crate) spec fn victor(&self) -> Option<PieceColor> {
        self.winner
    }

    /// How the game ended, if it has.
    pub open(crate) spec fn ending(&self) -> Option<GameEndStatus> {
        self.game_end_status
    }

    /// `self` and `other` agree in all but the pieces on the squares.
    pub open spec fn same_state_around_board(&self, other: &ChessBoard) -> bool {
        &&& self.to_move() == other.to_move()
        &&& self.history() == other.history()
        &&& self.turn() == other.turn()
        &&& self.rights() == other.rights()
        &&& self.victor() == other.victor()
        &&& self.ending() == other.ending()
    }

    /// A board without pieces, before the first move, with nobody to move and
    /// no castle open.
    pub fn empty_board() -> (board: Self)
        ensures
            board.placement() == Map::<BoardPosition, Piece>::empty(),
            board.to_move() is None,
            board.history() == Seq::<Move>::empty(),
            board.turn() == 1,
            board.rights().none(),
            board.victor() is None,
            board.ending() is None,
            board.settled(),
            board.well_placed(),
    {
        let row: [Option<Piece>; 8] = [None, None, None, None, None, None, None, None];
        let board = ChessBoard {
            board: Grid { cells: [row, row, row, row, row, row, row, row] },
            active_color: None,
            past_moves: Vec::new(),
            move_number: 1,
            castling_rights: CastlingRights::default(),
            winner: None,
            game_end_status: None,
        };
        assert(board.placement() =~= Map::<BoardPosition, Piece>::empty());
        proof {
            use_type_invariant(&board.board);
        }
        board
    }

    /// The end of the game, if it has come, is one that the board bears out.
    /// Once the game has ended nobody is to move. A side has won if and only
    /// if the game ended by checkmate, and then the other side has no valid
    /// move and is in check. If it ended by stalemate, one side has no valid
    /// move and is not in check.
    pub open spec fn settled(&self) -> bool {
        &&& self.ending() is Some ==> self.to_move() is None
        &&& self.victor() is Some <==> self.ending() == Some(GameEndStatus::Checkmate)
        &&& self.victor() matches Some(winner) ==> {
            &&& legal_moves(self.placement(), self.rights(), Some(winner.other())).len() == 0
            &&& in_check(self.placement(), winner.other())
        }
        &&& self.ending() == Some(GameEndStatus::Stalemate) ==> exists|color: PieceColor|
            #[trigger] legal_moves(self.placement(), self.rights(), Some(color)).len() == 0
                && !in_check(self.placement(), color)
    }

    /// The board is set up as `data` says, before the first move: the
    /// pieces that `data` places stand on their squares and have not moved,
    /// the side to move, the number of the move and the castling rights are
    /// those of `data`, and the game has not ended.
    pub open spec fn describes(&self, data: FenData) -> bool {
        &&& self.placement() == fresh_pieces(data.placement, 64)
        &&& self.to_move() == Some(data.active_color)
        &&& self.history() == Seq::<Move>::empty()
        &&& self.turn() == data.fullmove_number
        &&& self.rights() == data.castling_rights
        &&& self.victor() is None
        &&& self.ending() is None
    }

    /// The board that the description `fen` describes, before its first
    /// move. A notice of each piece that is put on the board is added to
    /// `create_event`, in scan order.
    pub fn from_fen(fen: &Fen, create_event: &mut Vec<PieceCreateEvent>) -> (board: Self)
        ensures
            board.describes(fen@),
            board.settled(),
            board.well_placed(),
            final(create_event)@ == old(create_event)@ + creations(fen@.placement, 64),
    {
        let mut board_state = ChessBoard::empty_board();
        let ghost placement = fen@.placement;
        assert(board_state.placement() =~= fresh_pieces(placement, 0));
        assert(create_event@ =~= old(create_event)@ + creations(placement, 0));
        let mut rank: usize = 0;
        while rank < 8
            invariant
                rank <= 8,
                placement == fen@.placement,
                board_state.placement() == fresh_pieces(placement, rank * 8),
                board_state.history() == Seq::<Move>::empty(),
                board_state.victor() is None,
                board_state.ending() is None,
                create_event@ == old(create_event)@ + creations(placement, (rank * 8) as nat),
            decreases 8 - rank,
        {
            let mut file: usize = 0;
            while file < 8
                invariant
                    rank < 8,
                    file <= 8,
                    placement == fen@.placement,
                    board_state.placement() == fresh_pieces(placement, rank * 8 + file),
                    board_state.history() == Seq::<Move>::empty(),
                    board_state.victor() is None,
                    board_state.ending() is None,
                    create_event@ == old(create_event)@ + creations(
                        placement,
                        (rank * 8 + file) as nat,
                    ),
                decreases 8 - file,
            {
                proof {
                    lemma_nth_on_board(rank * 8 + file);
                }
                let ghost before = create_event@;
                let ghost listed = creations(placement, (rank * 8 + file) as nat);
                match fen.piece_placement[rank][file] {
                    Some((piece_color, piece_type)) => {
                        let position = BoardPosition::new(rank, file);
                        board_state.add_piece(piece_color, piece_type, position, create_event);
                        assert(create_event@ =~= old(create_event)@ + listed.push(
                            PieceCreateEvent { position, piece_type, color: piece_color },
                        ));
                    },
                    None => {},
                }
                assert(board_state.placement() =~= fresh_pieces(placement, rank * 8 + file + 1));
                file += 1;
            }
            rank += 1;
        }
        proof {
            use_type_invariant(&board_state.board);
        }
        board_state.active_color = Some(fen.active_color);
        board_state.move_number = fen.fullmove_number;
        board_state.castling_rights = fen.castling_rights;
        proof {
            use_type_invariant(&board_state.board);
        }
        board_state
    }

    /// Puts a piece of the given colour and kind, one that has not moved, on
    /// `position`, in place of what stood there, and adds a notice of it to
    /// `create_event`.
    pub fn add_piece(
        &mut self,
        piece_color: PieceColor,
        piece_type: PieceType,
        position: BoardPosition,
        create_event: &mut Vec<PieceCreateEvent>,
    )
        ensures
            final(self).placement() == old(self).placement().insert(
                position,
                Piece::fresh(piece_type, piece_color, position),
            ),
            final(self).same_state_around_board(old(self)),
            final(create_event)@ == old(create_event)@.push(
                PieceCreateEvent { position, piece_type, color: piece_color },
            ),
    {
        proof {
            use_type_invariant(position);
            use_type_invariant(&self.board);
        }
        let new_piece = new_piece(piece_color, piece_type, position);
        self.board.cells[position.rank][position.file] = Some(new_piece);
        create_event.push(PieceCreateEvent { position, piece_type, color: piece_color });
        assert(self.placement() =~= old(self).placement().insert(
            position,
            Piece::fresh(piece_type, piece_color, position),
        ));
    }

    /// The side to move; none once the game has ended.
    pub fn active_color(&self) -> (color: &Option<PieceColor>)
        ensures
            *color == self.to_move(),
    {
        &self.active_color
    }

    /// The moves made so far, oldest first.
    pub fn past_moves(&self) -> (moves: &Vec<Move>)
        ensures
            moves@ == self.history(),
    {
        &self.past_moves
    }

    /// The number of the move that is being played.
    pub fn move_number(&self) -> (number: &i32)
        ensures
            *number == self.turn(),
    {
        &self.move_number
    }

    /// How the game ended, if it has.
    pub fn game_end_status(&self) -> (status: &Option<GameEndStatus>)
        ensures
            *status == self.ending(),
    {
        &self.game_end_status
    }

    /// The side that won, if one did.
    pub fn winner(&self) -> (color: &Option<PieceColor>)
        ensures
            *color == self.victor(),
    {
        &self.winner
    }

    /// The castles still open to each side.
    pub fn castling_rights(&self) -> (rights: &CastlingRights)
        ensures
            *rights == self.rights(),
    {
        &self.castling_rights
    }

    /// The piece on `position`, if the square is occupied.
    pub fn get_piece(&self, position: &BoardPosition) -> (piece: Option<Piece>)
        ensures
            piece == piece_on(self.placement(), *position),
            piece matches Some(found) ==> found.square() == *position && found.on_board(),
    {
        proof {
            use_type_invariant(position);
            use_type_invariant(&self.board);
        }
        self.board.cells[position.rank][position.file]
    }

    /// The kind of the piece on `position`, if the square is occupied.
    pub fn get_piece_type(&self, position: &BoardPosition) -> (kind: Option<PieceType>)
        ensures
            kind == match piece_on(self.placement(), *position) {
                Some(piece) => Some(piece.kind()),
                None => None,
            },
    {
        match self.get_piece(position) {
            Some(piece) => Some(piece.get_type()),
            None => None,
        }
    }

    /// The colour of the piece on `position`, if the square is occupied.
    pub fn get_piece_color(&self, position: &BoardPosition) -> (color: Option<PieceColor>)
        ensures
            color == match piece_on(self.placement(), *position) {
                Some(piece) => Some(piece.side()),
                None => None,
            },
    {
        match self.get_piece(position) {
            Some(piece) => Some(piece.get_color()),
            None => None,
        }
    }

    /// Puts the piece that stands on `from` on `to`. The piece counts as
    /// moved from then on, whatever stood on `to` is gone, and `from` is
    /// empty. Whether the rules allow the move is not looked at.
    pub fn move_piece(&mut self, from: &BoardPosition, to: &BoardPosition)
        requires
            old(self).placement().dom().contains(*from),
        ensures
            final(self).placement() == after_move(old(self).placement(), *from, *to),
            final(self).same_state_around_board(old(self)),
            final(self).well_placed(),
    {
        proof {
            use_type_invariant(from);
            use_type_invariant(to);
            use_type_invariant(&self.board);
        }
        let mut piece = self.board.cells[from.rank][from.file].unwrap();
        piece.set_position(*to, true);
        self.board.cells[to.rank][to.file] = Some(piece);
        self.board.cells[from.rank][from.file] = None;
        assert(self.placement() =~= after_move(old(self).placement(), *from, *to));
        proof {
            use_type_invariant(&self.board);
        }
    }

    /// Whether no piece stands strictly between `start` and `end`, which
    /// share a rank, a file or a diagonal.
    pub fn no_piece_between_squares(&self, start: &BoardPosition, end: &BoardPosition) -> (clear:
        bool)
        requires
            aligned(*start, *end),
        ensures
            clear == path_clear(self.placement(), *start, *end),
    {
        proof {
            use_type_invariant(start);
            use_type_invariant(end);
        }
        let mut rank: usize = start.rank;
        let mut file: usize = start.file;
        let ghost mut k: int = 1;
        if rank != end.rank || file != end.file {
            rank = step_towards(rank, start.rank, end.rank);
            file = step_towards(file, start.file, end.file);
        }
        while rank != end.rank || file != end.file
            invariant
                start.on_board(),
                end.on_board(),
                aligned(*start, *end),
                1 <= k,
                k <= span(*start, *end) || span(*start, *end) == 0,
                rank == start.rank_idx() + along(end.rank_idx() - start.rank_idx(), k),
                file == start.file_idx() + along(end.file_idx() - start.file_idx(), k),
                forall|j: int|
                    0 < j < k ==> !self.placement().dom().contains(
                        #[trigger] ray_square(*start, *end, j),
                    ),
            decreases span(*start, *end) - k,
        {
            if self.board.cells[rank][file].is_some() {
                assert(self.placement().dom().contains(ray_square(*start, *end, k)));
                return false;
            }
            rank = step_towards(rank, start.rank, end.rank);
            file = step_towards(file, start.file, end.file);
            proof {
                k = k + 1;
            }
        }
        true
    }

    /// The square on which the king of `color` stands: the first in scan
    /// order if there are several, the top left corner if there is none.
    fn king_location(&self, color: &PieceColor) -> (square: BoardPosition)
        ensures
            square == king_square(self.placement(), *color),
    {
        let mut place: usize = 0;
        while place < 64
            invariant
                place <= 64,
                first_king(self.placement(), *color, place as nat) is None,
            decreases 64 - place,
        {
            let rank: usize = place / 8;
            let file: usize = place % 8;
            proof {
                lemma_nth_on_board(place as int);
            }
            match self.board.cells[rank][file] {
                Some(piece) => {
                    if piece.get_type() == PieceType::King && piece.get_color() == *color {
                        proof {
                            lemma_first_king_stays(self.placement(), *color, (place + 1) as nat, 64);
                        }
                        return BoardPosition::new(rank, file);
                    }
                },
                None => {},
            }
            place += 1;
        }
        BoardPosition::new(0, 0)
    }

    /// Whether the move `piece_move` is valid for the side `active_color`.
    ///
    /// A move marked both as a capture and as a castle is not valid. A piece
    /// of `active_color` must stand on the source square. If the destination
    /// is empty the piece must be able to go there; if an enemy piece stands
    /// on it the piece must be able to take there; its own side's pieces it
    /// does not take. Unless the piece jumps, the squares between source and
    /// destination must be empty.
    ///
    /// With `check_for_check` set, the move must also leave the king of
    /// `active_color` out of check, and a castle needs the right to castle
    /// that way, empty squares between the king and the corner, and a king
    /// that is not in check.
    pub fn valid_move(
        &self,
        piece_move: &Move,
        active_color: &Option<PieceColor>,
        check_for_check: &bool,
    ) -> (valid: bool)
        ensures
            valid == accepted(
                self.placement(),
                self.rights(),
                *piece_move,
                *active_color,
                *check_for_check,
            ),
        decreases
                (if *check_for_check {
                    1int
                } else {
                    0int
                }),
                1int,
    {
        let from = piece_move.from;
        let to = piece_move.to;
        if piece_move.is_castle() && piece_move.is_capture() {
            return false;
        }
        let piece = match self.get_piece(&from) {
            Some(piece) => piece,
            None => {
                return false;
            },
        };
        let color = match active_color {
            Some(color) => *color,
            None => {
                return false;
            },
        };
        if piece.get_color() != color {
            return false;
        }
        let fits = match self.get_piece_color(&to) {
            Some(target_color) => {
                if target_color == piece.get_color() {
                    false
                } else {
                    piece.valid_capture(to)
                }
            },
            None => piece.valid_move(to),
        };
        if !fits {
            return false;
        }
        if piece.is_sliding() {
            proof {
                use_type_invariant(to);
                lemma_sliding_moves_are_aligned(piece, to);
            }
            if !self.no_piece_between_squares(&from, &to) {
                return false;
            }
        }
        assert(pseudo_legal(self.placement(), *piece_move, *active_color));
        if !*check_for_check {
            return true;
        }
        let mut test_board = self.clone();
        test_board.move_piece(&from, &to);
        if test_board.in_check(&color) {
            return false;
        }
        if !piece_move.is_castle() {
            return true;
        }
        let from_file: usize = *from.file();
        let to_file: usize = *to.file();
        let direction: i32 = if to_file > from_file {
            1
        } else if to_file < from_file {
            -1
        } else {
            0
        };
        if !self.castling_rights.valid_castle_direction(&color, direction) {
            return false;
        }
        let corner = BoardPosition::new(
            *from.rank(),
            if to_file > from_file {
                7
            } else {
                0
            },
        );
        self.no_piece_between_squares(&from, &corner) && !self.in_check(&color)
    }

    /// The valid moves of the side `active_color`: for each occupied square
    /// in scan order, and for each square that the geometry of the piece on
    /// it leads to (a pawn's captures among them), the move as the board
    /// shows it, if it is valid.
    pub fn get_valid_moves(&self, active_color: &Option<PieceColor>, check_for_check: &bool) -> (moves:
        Vec<Move>)
        ensures
            moves@ == valid_moves(
                self.placement(),
                self.rights(),
                *active_color,
                *check_for_check,
            ),
        decreases
                (if *check_for_check {
                    1int
                } else {
                    0int
                }),
                2int,
    {
        let ghost scrutiny = if *check_for_check {
            Some(self.rights())
        } else {
            None
        };
        let mut moves: Vec<Move> = Vec::new();
        let mut rank: usize = 0;
        while rank < 8
            invariant
                rank <= 8,
                scrutiny == (if *check_for_check {
                    Some(self.rights())
                } else {
                    None
                }),
                moves@ == moves_upto(self.placement(), scrutiny, *active_color, (rank * 8) as nat),
            decreases 8 - rank,
        {
            let mut file: usize = 0;
            while file < 8
                invariant
                    rank < 8,
                    file <= 8,
                    scrutiny == (if *check_for_check {
                        Some(self.rights())
                    } else {
                        None
                    }),
                    moves@ == moves_upto(
                        self.placement(),
                        scrutiny,
                        *active_color,
                        (rank * 8 + file) as nat,
                    ),
                decreases 8 - file,
            {
                let from = BoardPosition::new(rank, file);
                proof {
                    lemma_nth_on_board(rank * 8 + file);
                }
                let ghost before = moves@;
                match self.get_piece(&from) {
                    Some(piece) => {
                        let piece_moves = piece.get_moves(true);
                        let mut k: usize = 0;
                        while k < piece_moves.len()
                            invariant
                                k <= piece_moves.len(),
                                from.on_board(),
                                self.placement().dom().contains(from),
                                piece_moves@ == self.placement()[from].moves(true),
                                scrutiny == (if *check_for_check {
                                    Some(self.rights())
                                } else {
                                    None
                                }),
                                moves@ == before + moves_from(
                                    self.placement(),
                                    scrutiny,
                                    *active_color,
                                    from,
                                    k as nat,
                                ),
                            decreases piece_moves.len() - k,
                        {
                            let piece_move = Move::from_board(from, piece_moves[k], self);
                            let ghost listed = moves_from(
                                self.placement(),
                                scrutiny,
                                *active_color,
                                from,
                                k as nat,
                            );
                            if self.valid_move(&piece_move, active_color, check_for_check) {
                                moves.push(piece_move);
                                assert(moves@ =~= before + listed.push(piece_move));
                            }
                            k += 1;
                        }
                    },
                    None => {
                        assert(moves@ =~= before + Seq::<Move>::empty());
                    },
                }
                assert(moves@ == before + all_moves_from(
                    self.placement(),
                    scrutiny,
                    *active_color,
                    from,
                ));
                file += 1;
            }
            rank += 1;
        }
        moves
    }

    /// Whether the side `color` is in check: whether a move of the other
    /// side that geometry and occupancy allow ends on the square of its king.
    pub fn in_check(&self, color: &PieceColor) -> (check: bool)
        ensures
            check == in_check(self.placement(), *color),
        decreases 0int, 3int,
    {
        let king_location = self.king_location(color);
        let moves = self.get_valid_moves(&Some(color.opposite()), &false);
        let mut i: usize = 0;
        while i < moves.len()
            invariant
                i <= moves.len(),
                king_location == king_square(self.placement(), *color),
                moves@ == pseudo_moves(self.placement(), Some(color.other())),
                forall|j: int| 0 <= j < i ==> (#[trigger] moves@[j]).to != king_location,
            decreases moves.len() - i,
        {
            if moves[i].to == king_location {
                return true;
            }
            i += 1;
        }
        false
    }
}

/// A king that is found among the first `n` places is the one found among
/// the first `m`, for every `m` from `n` on.
proof fn lemma_first_king_stays(board: Map<BoardPosition, Piece>, color: PieceColor, n: nat, m: nat)
    requires
        n <= m,
        first_king(board, color, n) is Some,
    ensures
        first_king(board, color, m) == first_king(board, color, n),
    decreases m,
{
    if n < m {
        lemma_first_king_stays(board, color, n, (m - 1) as nat);
    }
}

} // verus!
