//! The record of a single move.

use vstd::prelude::*;
use vstd::string::*;
use crate::chess_board::ChessBoard;
use crate::piece::{PieceColor, PieceType};
use crate::position::BoardPosition;
use crate::rules::derived_move;

verus! {

/// One move of one piece: where from, where to, what moved, and whether the
/// move takes a piece or castles.
#[derive(PartialEq, Eq, Copy, Clone, Debug, Structural)]
pub struct Move {
    pub from: BoardPosition,
    pub to: BoardPosition,
    pub piece_type: PieceType,
    pub piece_color: PieceColor,
    pub is_capture: bool,
    pub is_castle: bool,
}

/// The letter of a file: `a` for file 0 up to `h` for file 7.
pub open spec fn file_letter(file: int) -> Seq<char> {
    if file == 0 {
        seq!['a']
    } else if file == 1 {
        seq!['b']
    } else if file == 2 {
        seq!['c']
    } else if file == 3 {
        seq!['d']
    } else if file == 4 {
        seq!['e']
    } else if file == 5 {
        seq!['f']
    } else if file == 6 {
        seq!['g']
    } else {
        seq!['h']
    }
}

/// The digit of a rank as players count it: `8` for rank 0 down to `1` for
/// rank 7.
pub open spec fn rank_digit(rank: int) -> Seq<char> {
    if rank == 0 {
        seq!['8']
    } else if rank == 1 {
        seq!['7']
    } else if rank == 2 {
        seq!['6']
    } else if rank == 3 {
        seq!['5']
    } else if rank == 4 {
        seq!['4']
    } else if rank == 5 {
        seq!['3']
    } else if rank == 6 {
        seq!['2']
    } else {
        seq!['1']
    }
}

/// The letter that stands for a kind of piece; the pawn has none.
pub open spec fn piece_letter(kind: PieceType) -> Seq<char> {
    match kind {
        PieceType::King => seq!['K'],
        PieceType::Queen => seq!['Q'],
        PieceType::Bishop => seq!['B'],
        PieceType::Knight => seq!['N'],
        PieceType::Rook => seq!['R'],
        PieceType::Pawn => Seq::empty(),
    }
}

/// The move in algebraic notation. A castle is `0-0` towards the h-file and
/// `0-0-0` towards the a-file. Any other move is the letter of the piece,
/// then for a capture an `x` (after the file it came from, if a pawn
/// captures), then the destination square.
pub open spec fn algebraic(m: Move) -> Seq<char> {
    if m.is_castle {
        if m.to.file_idx() > m.from.file_idx() {
            seq!['0', '-', '0']
        } else {
            seq!['0', '-', '0', '-', '0']
        }
    } else {
        let capture = if m.is_capture {
            (if m.piece_type == PieceType::Pawn {
                file_letter(m.from.file_idx())
            } else {
                Seq::empty()
            }) + seq!['x']
        } else {
            Seq::empty()
        };
        piece_letter(m.piece_type) + capture + file_letter(m.to.file_idx()) + rank_digit(
            m.to.rank_idx(),
        )
    }
}

impl Move {
    /// The record of the move from `from` to `to`, read off the board as it
    /// stands before the move is made.
    pub fn from_board(from: BoardPosition, to: BoardPosition, board: &ChessBoard) -> (m: Self)
        requires
            board.placement().dom().contains(from),
        ensures
            m == derived_move(board.placement(), from, to),
    {
        let piece_type = board.get_piece_type(&from).unwrap();
        let from_file: usize = *from.file();
        let to_file: usize = *to.file();
        Move {
            from,
            to,
            piece_type,
            piece_color: board.get_piece_color(&from).unwrap(),
            is_capture: board.get_piece_type(&to).is_some(),
            is_castle: piece_type == PieceType::King && (from_file + 2 == to_file || to_file + 2
                == from_file),
        }
    }

    /// The square the piece leaves.
    pub fn from(&self) -> (square: &BoardPosition)
        ensures
            *square == self.from,
    {
        &self.from
    }

    /// The square the piece goes to.
    pub fn to(&self) -> (square: &BoardPosition)
        ensures
            *square == self.to,
    {
        &self.to
    }

    /// The kind of the piece that moves.
    pub fn piece_type(&self) -> (kind: &PieceType)
        ensures
            *kind == self.piece_type,
    {
        &self.piece_type
    }

    /// The colour of the piece that moves.
    pub fn piece_color(&self) -> (color: &PieceColor)
        ensures
            *color == self.piece_color,
    {
        &self.piece_color
    }

    /// Whether the move is a castle.
    pub fn is_castle(&self) -> (castle: bool)
        ensures
            castle == self.is_castle,
    {
        self.is_castle
    }

    /// Whether the move takes a piece.
    pub fn is_capture(&self) -> (capture: bool)
        ensures
            capture == self.is_capture,
    {
        self.is_capture
    }

    /// The move in algebraic notation. A castle must lead to another file.
    pub fn as_algebraic(&self) -> (text: String)
        requires
            self.is_castle ==> self.to.file_idx() != self.from.file_idx(),
        ensures
            text@ == algebraic(*self),
    {
        if self.is_castle {
            proof {
                reveal_strlit("0-0");
                reveal_strlit("0-0-0");
            }
            if *self.to.file() > *self.from.file() {
                let text = "0-0".to_owned();
                assert(text@ =~= algebraic(*self));
                text
            } else {
                let text = "0-0-0".to_owned();
                assert(text@ =~= algebraic(*self));
                text
            }
        } else {
            proof {
                reveal_strlit("K");
                reveal_strlit("Q");
                reveal_strlit("B");
                reveal_strlit("N");
                reveal_strlit("R");
                reveal_strlit("");
                reveal_strlit("x");
            }
            let mut text = String::new();
            text.append(
                match self.piece_type {
                    PieceType::King => "K",
                    PieceType::Queen => "Q",
                    PieceType::Bishop => "B",
                    PieceType::Knight => "N",
                    PieceType::Rook => "R",
                    PieceType::Pawn => "",
                },
            );
            assert(text@ =~= piece_letter(self.piece_type));
            if self.is_capture {
                if self.piece_type == PieceType::Pawn {
                    text.append(Self::file_to_string(*self.from.file()).as_str());
                }
                text.append("x");
            }
            text.append(Self::file_to_string(*self.to.file()).as_str());
            text.append(Self::rank_to_string(*self.to.rank()).as_str());
            assert(text@ =~= algebraic(*self));
            text
        }
    }

    /// The letter of a file: `a` for file 0 up to `h` for file 7.
    pub fn file_to_string(file: usize) -> (letter: String)
        requires
            file < 8,
        ensures
            letter@ == file_letter(file as int),
    {
        proof {
            reveal_strlit("a");
            reveal_strlit("b");
            reveal_strlit("c");
            reveal_strlit("d");
            reveal_strlit("e");
            reveal_strlit("f");
            reveal_strlit("g");
            reveal_strlit("h");
        }
        let letter = match file {
            0 => "a",
            1 => "b",
            2 => "c",
            3 => "d",
            4 => "e",
            5 => "f",
            6 => "g",
            _ => "h",
        };
        assert(letter@ =~= file_letter(file as int));
        letter.to_owned()
    }

    /// The digit of a rank as players count it: `8` for rank 0 down to `1`
    /// for rank 7.
    fn rank_to_string(rank: usize) -> (digit: String)
        requires
            rank < 8,
        ensures
            digit@ == rank_digit(rank as int),
    {
        proof {
            reveal_strlit("8");
            reveal_strlit("7");
            reveal_strlit("6");
            reveal_strlit("5");
            reveal_strlit("4");
            reveal_strlit("3");
            reveal_strlit("2");
            reveal_strlit("1");
        }
        let digit = match rank {
            0 => "8",
            1 => "7",
            2 => "6",
            3 => "5",
            4 => "4",
            5 => "3",
            6 => "2",
            _ => "1",
        };
        assert(digit@ =~= rank_digit(rank as int));
        digit.to_owned()
    }
}

} // verus!
