//! Pieces: their colour and kind, where they stand, and where their
//! geometry lets them go on an otherwise empty board.

use vstd::prelude::*;
use crate::position::BoardPosition;

pub mod bishop;
pub mod king;
pub mod knight;
pub mod pawn;
pub mod queen;
pub mod rook;

verus! {

/// The two sides.
#[derive(Clone, Copy, Debug, PartialEq, Eq, Structural)]
pub enum PieceColor {
    White,
    Black,
}

impl PieceColor {
    /// The other side.
    pub open spec fn other(self) -> PieceColor {
        match self {
            PieceColor::White => PieceColor::Black,
            PieceColor::Black => PieceColor::White,
        }
    }

    /// The other side.
    pub fn opposite(&self) -> (c: PieceColor)
        ensures
            c == self.other(),
            c != *self,
    {
        match self {
            PieceColor::White => PieceColor::Black,
            PieceColor::Black => PieceColor::White,
        }
    }

    /// The name of the side: `White` or `Black`.
    pub fn to_string(&self) -> (s: String)
        ensures
            *self == PieceColor::White ==> s@ == "White"@,
            *self == PieceColor::Black ==> s@ == "Black"@,
    {
        match self {
            PieceColor::White => "White".to_owned(),
            PieceColor::Black => "Black".to_owned(),
        }
    }
}

/// The six kinds of piece.
#[derive(Clone, Copy, Debug, PartialEq, Eq, Structural)]
pub enum PieceType {
    King,
    Queen,
    Bishop,
    Knight,
    Rook,
    Pawn,
}

/// The place of a kind of piece in a row of the sprite sheet.
pub open spec fn sheet_column(kind: PieceType) -> int {
    match kind {
        PieceType::King => 0,
        PieceType::Queen => 1,
        PieceType::Bishop => 2,
        PieceType::Knight => 3,
        PieceType::Rook => 4,
        PieceType::Pawn => 5,
    }
}

/// The place of a piece on the sprite sheet, which shows the six kinds of
/// White in a first row and those of Black in a second.
pub fn sprite_sheet_index(piece_type: PieceType, color: PieceColor) -> (index: usize)
    ensures
        index == sheet_column(piece_type) + (if color == PieceColor::Black {
            6int
        } else {
            0int
        }),
{
    let column: usize = match piece_type {
        PieceType::King => 0,
        PieceType::Queen => 1,
        PieceType::Bishop => 2,
        PieceType::Knight => 3,
        PieceType::Rook => 4,
        PieceType::Pawn => 5,
    };
    match color {
        PieceColor::White => column,
        PieceColor::Black => column + 6,
    }
}

/// A piece on the board: what it is, whose it is, where it stands, where it
/// first stood, and whether it has moved since.
#[derive(Clone, Copy, Debug, PartialEq, Eq, Structural)]
pub struct Piece {
    pub(crate) piece_type: PieceType,
    pub(crate) color: PieceColor,
    pub(crate) starting_position: BoardPosition,
    pub(crate) position: BoardPosition,
    pub(crate) moved: bool,
}

impl Piece {
    /// What kind of piece this is.
    pub open(crate) spec fn kind(self) -> PieceType {
        self.piece_type
    }

    /// The side that owns the piece.
    pub open(crate) spec fn side(self) -> PieceColor {
        self.color
    }

    /// The square the piece stands on.
    pub open(crate) spec fn square(self) -> BoardPosition {
        self.position
    }

    /// The square the piece was created on.
    pub open(crate) spec fn origin(self) -> BoardPosition {
        self.starting_position
    }

    /// Whether the piece has been moved since it was created.
    pub open(crate) spec fn has_moved(self) -> bool {
        self.moved
    }

    /// A piece that was just put on `at` and has not moved.
    pub open(crate) spec fn fresh(kind: PieceType, side: PieceColor, at: BoardPosition) -> Piece {
        Piece { piece_type: kind, color: side, starting_position: at, position: at, moved: false }
    }

    /// The same piece on the square `to`. It counts as moved from then on if
    /// `moved` is set, and stays moved if it was.
    pub open(crate) spec fn relocated(self, to: BoardPosition, moved: bool) -> Piece {
        Piece { position: to, moved: self.moved || moved, ..self }
    }

    /// The piece stands, and was created, on a square of the board.
    pub open spec fn on_board(self) -> bool {
        self.square().on_board() && self.origin().on_board()
    }

    /// Every square the piece's geometry lets it go to, whatever else stands
    /// on the board. `include_captures` adds a pawn's diagonal steps; the
    /// other kinds capture as they move.
    pub open spec fn moves(self, include_captures: bool) -> Seq<BoardPosition> {
        match self.kind() {
            PieceType::Pawn => pawn::pawn_moves(
                self.square(),
                self.side(),
                self.has_moved(),
                include_captures,
            ),
            PieceType::Knight => knight::knight_moves(self.square()),
            PieceType::Bishop => bishop::bishop_moves(self.square()),
            PieceType::Rook => rook::rook_moves(self.square()),
            PieceType::Queen => queen::queen_moves(self.square()),
            PieceType::King => king::king_moves(self.square(), self.has_moved()),
        }
    }

    /// The piece may go to `to` when that square is empty.
    pub open spec fn reaches(self, to: BoardPosition) -> bool {
        self.moves(false).contains(to)
    }

    /// The piece may take an enemy piece that stands on `to`. A pawn takes
    /// one step diagonally ahead; every other kind takes where it goes.
    pub open spec fn captures(self, to: BoardPosition) -> bool {
        match self.kind() {
            PieceType::Pawn => pawn::pawn_capture(self.square(), self.side(), to),
            _ => self.reaches(to),
        }
    }

    /// Whether pieces standing between the piece and its destination stop
    /// it. Only the knight jumps.
    pub open spec fn sliding(self) -> bool {
        self.kind() != PieceType::Knight
    }

    /// The kind of the piece.
    pub fn get_type(&self) -> (kind: PieceType)
        ensures
            kind == self.kind(),
    {
        self.piece_type
    }

    /// The side that owns the piece.
    pub fn get_color(&self) -> (side: PieceColor)
        ensures
            side == self.side(),
    {
        self.color
    }

    /// The square the piece stands on.
    pub fn get_position(&self) -> (square: BoardPosition)
        ensures
            square == self.square(),
    {
        self.position
    }

    /// The square the piece was created on.
    pub fn get_starting_position(&self) -> (square: BoardPosition)
        ensures
            square == self.origin(),
    {
        self.starting_position
    }

    /// Puts the piece on `new_position`. With `moved` set the piece counts as
    /// moved from now on; nothing makes it unmoved again.
    pub fn set_position(&mut self, new_position: BoardPosition, moved: bool)
        ensures
            *final(self) == old(self).relocated(new_position, moved),
    {
        self.position = new_position;
        if moved {
            self.moved = true;
        }
    }

    /// Every square the piece's geometry lets it go to, whatever else stands
    /// on the board, in the order of [`Piece::moves`].
    pub fn get_moves(&self, include_captures: bool) -> (moves: Vec<BoardPosition>)
        ensures
            moves@ == self.moves(include_captures),
            forall|i: int| 0 <= i < moves@.len() ==> (#[trigger] moves@[i]).on_board(),
    {
        let moves = match self.piece_type {
            PieceType::Pawn => pawn::get_moves(
                self.position,
                self.color,
                self.moved,
                include_captures,
            ),
            PieceType::Knight => knight::get_moves(self.position),
            PieceType::Bishop => bishop::get_moves(self.position),
            PieceType::Rook => rook::get_moves(self.position),
            PieceType::Queen => queen::get_moves(self.position),
            PieceType::King => king::get_moves(self.position, self.moved),
        };
        proof {
            use_type_invariant(self.position);
            use_type_invariant(self.starting_position);
            lemma_moves_on_board(*self, include_captures);
        }
        moves
    }

    /// Whether the piece may go to `end_position` when that square is empty.
    pub fn valid_move(&self, end_position: BoardPosition) -> (ok: bool)
        ensures
            ok == self.reaches(end_position),
    {
        let valid_moves = self.get_moves(false);
        contains_position(&valid_moves, end_position)
    }

    /// Whether the piece may take an enemy piece on `end_position`.
    pub fn valid_capture(&self, end_position: BoardPosition) -> (ok: bool)
        ensures
            ok == self.captures(end_position),
    {
        match self.piece_type {
            PieceType::Pawn => pawn::valid_capture(self.position, self.color, end_position),
            _ => self.valid_move(end_position),
        }
    }

    /// Whether pieces standing between the piece and its destination stop it.
    pub fn is_sliding(&self) -> (sliding: bool)
        ensures
            sliding == self.sliding(),
    {
        match self.piece_type {
            PieceType::Knight => false,
            _ => true,
        }
    }
}

/// A piece of the given colour and kind that stands on `position` and has
/// not moved.
pub fn new_piece(piece_color: PieceColor, piece_type: PieceType, position: BoardPosition) -> (piece:
    Piece)
    ensures
        piece == Piece::fresh(piece_type, piece_color, position),
{
    match piece_type {
        PieceType::Pawn => pawn::new(position, piece_color),
        PieceType::King => king::new(position, piece_color),
        PieceType::Queen => queen::new(position, piece_color),
        PieceType::Bishop => bishop::new(position, piece_color),
        PieceType::Knight => knight::new(position, piece_color),
        PieceType::Rook => rook::new(position, piece_color),
    }
}

/// Wherever a piece stands on the board, every square its geometry lets it
/// go to is on the board too.
pub proof fn lemma_moves_on_board(piece: Piece, include_captures: bool)
    requires
        piece.on_board(),
    ensures
        forall|i: int|
            0 <= i < piece.moves(include_captures).len() ==> (#[trigger] piece.moves(
                include_captures,
            )[i]).on_board(),
{
    let from = piece.square();
    match piece.kind() {
        PieceType::Pawn => {},
        PieceType::Knight => {
            lemma_squares_where_on_board(knight::knight_targets(from), 64);
        },
        PieceType::Bishop => {
            lemma_squares_where_on_board(bishop::bishop_targets(from), 64);
        },
        PieceType::Rook => {
            lemma_squares_where_on_board(rook::rook_targets(from), 64);
        },
        PieceType::Queen => {
            lemma_squares_where_on_board(queen::queen_targets(from), 64);
        },
        PieceType::King => {
            lemma_squares_where_on_board(king::king_targets(from), 64);
        },
    }
}

/// Squares of the board, in scan order, among the first `n` places, that
/// satisfy `wanted`.
pub open spec fn squares_where(wanted: spec_fn(BoardPosition) -> bool, n: nat) -> Seq<
    BoardPosition,
>
    decreases n,
{
    if n == 0 {
        Seq::empty()
    } else {
        let before = squares_where(wanted, (n - 1) as nat);
        let p = BoardPosition::nth(n - 1);
        if wanted(p) {
            before.push(p)
        } else {
            before
        }
    }
}

/// What `squares_where` holds: exactly the squares among the first `n` places
/// that satisfy `wanted`, each of them on the board.
pub proof fn lemma_squares_where_contains(
    wanted: spec_fn(BoardPosition) -> bool,
    n: nat,
    p: BoardPosition,
)
    requires
        n <= 64,
    ensures
        squares_where(wanted, n).contains(p) <==> (p.on_board() && p.scan_index() < n && wanted(p)),
    decreases n,
{
    if n > 0 {
        let before = squares_where(wanted, (n - 1) as nat);
        let q = BoardPosition::nth(n - 1);
        lemma_squares_where_contains(wanted, (n - 1) as nat, p);
        crate::position::lemma_nth_on_board(n - 1);
        if wanted(q) {
            assert(before.push(q)[before.len() as int] == q);
            if p.on_board() && p.scan_index() < n && wanted(p) {
                if p.scan_index() == n - 1 {
                    crate::position::lemma_scan_index_inverts_nth(p);
                    assert(before.push(q).contains(p));
                } else {
                    let i = choose|i: int| 0 <= i < before.len() && before[i] == p;
                    assert(before.push(q)[i] == p);
                }
            }
            if before.push(q).contains(p) {
                let i = choose|i: int| 0 <= i < before.push(q).len() && before.push(q)[i] == p;
                if i < before.len() {
                    assert(before[i] == p);
                }
            }
        }
    }
}

/// Every square that `squares_where` lists is on the board.
pub proof fn lemma_squares_where_on_board(wanted: spec_fn(BoardPosition) -> bool, n: nat)
    requires
        n <= 64,
    ensures
        forall|i: int|
            0 <= i < squares_where(wanted, n).len() ==> (#[trigger] squares_where(
                wanted,
                n,
            )[i]).on_board(),
{
    let s = squares_where(wanted, n);
    assert forall|i: int| 0 <= i < s.len() implies (#[trigger] s[i]).on_board() by {
        assert(s.contains(s[i]));
        lemma_squares_where_contains(wanted, n, s[i]);
    }
}

/// `a` and `b` share a rank, a file or a diagonal.
pub open spec fn aligned(a: BoardPosition, b: BoardPosition) -> bool {
    let dr = b.rank_idx() - a.rank_idx();
    let df = b.file_idx() - a.file_idx();
    dr == 0 || df == 0 || dr == df || dr == -df
}

/// Whether `targets` holds `p`.
pub fn contains_position(targets: &Vec<BoardPosition>, p: BoardPosition) -> (found: bool)
    ensures
        found == targets@.contains(p),
{
    let mut i: usize = 0;
    while i < targets.len()
        invariant
            i <= targets.len(),
            forall|j: int| 0 <= j < i ==> targets@[j] != p,
        decreases targets.len() - i,
    {
        if targets[i] == p {
            return true;
        }
        i += 1;
    }
    false
}

/// A piece that does not jump moves and captures along a line: its
/// destination shares a rank, a file or a diagonal with the square it stands
/// on, and is a square of the board.
pub proof fn lemma_sliding_moves_are_aligned(piece: Piece, to: BoardPosition)
    requires
        piece.on_board(),
        piece.sliding(),
        piece.reaches(to) || (piece.captures(to) && to.on_board()),
    ensures
        aligned(piece.square(), to),
        to.on_board(),
{
    let from = piece.square();
    match piece.kind() {
        PieceType::Pawn => {
            if piece.reaches(to) {
                let listed = piece.moves(false);
                let i = choose|i: int| 0 <= i < listed.len() && listed[i] == to;
                assert(listed[i] == to);
            }
        },
        PieceType::Knight => {},
        PieceType::Bishop => {
            lemma_squares_where_contains(bishop::bishop_targets(from), 64, to);
        },
        PieceType::Rook => {
            lemma_squares_where_contains(rook::rook_targets(from), 64, to);
        },
        PieceType::Queen => {
            lemma_squares_where_contains(queen::queen_targets(from), 64, to);
        },
        PieceType::King => {
            let ring = squares_where(king::king_targets(from), 64);
            let castles = king::castle_destinations(from, piece.has_moved());
            let listed = ring + castles;
            let i = choose|i: int| 0 <= i < listed.len() && listed[i] == to;
            assert(listed[i] == to);
            if i < ring.len() {
                assert(ring[i] == to);
                assert(ring.contains(to));
                lemma_squares_where_contains(king::king_targets(from), 64, to);
            } else {
                assert(castles[i - ring.len()] == to);
            }
        },
    }
}

} // verus!
