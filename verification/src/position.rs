//! Squares of the 8×8 board.

use vstd::prelude::*;
use crate::piece::PieceColor;

verus! {

/// Number of ranks, and of files, on the board.
pub const BOARD_SIZE: usize = 8;

/// A square, addressed by rank and file. Rank 0 is the top row as displayed
/// (Black's back rank in the starting position) and file 0 is the a-file.
///
/// Both coordinates of every value of this type are below [`BOARD_SIZE`].
#[derive(Clone, Copy, Debug, PartialEq, Eq, Structural)]
pub struct BoardPosition {
    pub(crate) rank: usize,
    pub(crate) file: usize,
}

impl BoardPosition {
    /// Both coordinates lie on the board.
    #[verifier::type_invariant]
    pub open(crate) spec fn on_board(self) -> bool {
        self.rank < 8 && self.file < 8
    }

    /// The rank as a mathematical integer.
    pub open(crate) spec fn rank_idx(self) -> int {
        self.rank as int
    }

    /// The file as a mathematical integer.
    pub open(crate) spec fn file_idx(self) -> int {
        self.file as int
    }

    /// The square with the given coordinates.
    pub open(crate) spec fn at(rank: int, file: int) -> BoardPosition {
        BoardPosition { rank: rank as usize, file: file as usize }
    }

    /// Place of the square in board-scan order: rank by rank, and within a
    /// rank file by file.
    pub open spec fn scan_index(self) -> int {
        self.rank_idx() * 8 + self.file_idx()
    }

    /// The square that stands at place `i` of board-scan order.
    pub open spec fn nth(i: int) -> BoardPosition {
        BoardPosition::at(i / 8, i % 8)
    }

    /// Creates the square at `rank`, `file`.
    pub fn new(rank: usize, file: usize) -> (p: Self)
        requires
            rank < BOARD_SIZE,
            file < BOARD_SIZE,
        ensures
            p == BoardPosition::at(rank as int, file as int),
            p.rank_idx() == rank,
            p.file_idx() == file,
            p.on_board(),
    {
        BoardPosition { rank, file }
    }

    /// The square at `rank`, `file`, if both lie on the board.
    pub fn checked_new(rank: i32, file: i32) -> (p: Option<Self>)
        ensures
            p is Some <==> 0 <= rank < 8 && 0 <= file < 8,
            p matches Some(square) ==> square == BoardPosition::at(rank as int, file as int),
    {
        if 0 <= rank && rank < 8 && 0 <= file && file < 8 {
            Some(BoardPosition::new(rank as usize, file as usize))
        } else {
            None
        }
    }

    /// The rank of the square.
    pub fn rank(&self) -> (r: &usize)
        ensures
            *r == self.rank_idx(),
            *r < BOARD_SIZE,
    {
        proof {
            use_type_invariant(self);
        }
        &self.rank
    }

    /// The file of the square.
    pub fn file(&self) -> (f: &usize)
        ensures
            *f == self.file_idx(),
            *f < BOARD_SIZE,
    {
        proof {
            use_type_invariant(self);
        }
        &self.file
    }
}

/// The shade of a square: the top left corner is white, and the shades
/// alternate along ranks and files.
pub open spec fn shade(p: BoardPosition) -> PieceColor {
    if (p.rank_idx() + p.file_idx()) % 2 == 0 {
        PieceColor::White
    } else {
        PieceColor::Black
    }
}

/// The shade of the square `position`.
pub fn position_to_color(position: &BoardPosition) -> (color: PieceColor)
    ensures
        color == shade(*position),
{
    if (*position.rank() % 2 == 0) == (*position.file() % 2 == 0) {
        PieceColor::White
    } else {
        PieceColor::Black
    }
}

/// A square on the board is the one found at its own place in scan order,
/// and the places of the 64 squares are 0 to 63.
pub proof fn lemma_scan_index_inverts_nth(p: BoardPosition)
    requires
        p.on_board(),
    ensures
        0 <= p.scan_index() < 64,
        BoardPosition::nth(p.scan_index()) == p,
{
}

/// Each place in scan order holds a square of the board, which knows its place.
pub proof fn lemma_nth_on_board(i: int)
    requires
        0 <= i < 64,
    ensures
        BoardPosition::nth(i).on_board(),
        BoardPosition::nth(i).scan_index() == i,
        BoardPosition::nth(i).rank_idx() == i / 8,
        BoardPosition::nth(i).file_idx() == i % 8,
{
}

} // verus!
