//! Which castles are still open to each side.

use vstd::prelude::*;
use vstd::string::*;
use crate::chess_move::Move;
use crate::piece::{PieceColor, PieceType};

verus! {

/// For each side, whether it may still castle towards the h-file (place 0)
/// and towards the a-file (place 1). A right that is lost does not come back.
#[derive(Debug, Clone, PartialEq, Eq, Copy)]
pub struct CastlingRights {
    pub white: [bool; 2],
    pub black: [bool; 2],
}

impl Default for CastlingRights {
    /// No castle is open to either side.
    fn default() -> (rights: Self)
        ensures
            rights.none(),
    {
        CastlingRights { white: [false, false], black: [false, false] }
    }
}

impl CastlingRights {
    /// No castle is open to either side.
    pub open spec fn none(self) -> bool {
        !self.white[0] && !self.white[1] && !self.black[0] && !self.black[1]
    }

    /// The rights of the given side: king side first, queen side second.
    pub open spec fn of(self, color: PieceColor) -> [bool; 2] {
        match color {
            PieceColor::White => self.white,
            PieceColor::Black => self.black,
        }
    }

    /// Whether `color` may castle in the direction that `direction` points
    /// to: towards the h-file if it is positive, towards the a-file if it is
    /// negative. No direction, no castle.
    pub open spec fn allows(self, color: PieceColor, direction: int) -> bool {
        if direction > 0 {
            self.of(color)[0]
        } else if direction < 0 {
            self.of(color)[1]
        } else {
            false
        }
    }

    /// Every castle that `self` leaves open is open in `earlier` too.
    pub open spec fn within(self, earlier: CastlingRights) -> bool {
        &&& self.white[0] ==> earlier.white[0]
        &&& self.white[1] ==> earlier.white[1]
        &&& self.black[0] ==> earlier.black[0]
        &&& self.black[1] ==> earlier.black[1]
    }

    /// The rights that are left after the move `m`: a king's move closes
    /// both castles of its side, a rook's move from the a-file closes the
    /// queen-side castle of its side, and one from the h-file the king-side
    /// castle. Any other move leaves the rights as they are.
    pub open spec fn after(self, m: Move) -> CastlingRights {
        let kept = self.of(m.piece_color);
        let king_side = kept[0] && m.piece_type != PieceType::King && !(m.piece_type
            == PieceType::Rook && m.from.file_idx() == 7);
        let queen_side = kept[1] && m.piece_type != PieceType::King && !(m.piece_type
            == PieceType::Rook && m.from.file_idx() == 0);
        CastlingRights {
            white: if m.piece_color == PieceColor::White {
                [king_side, queen_side]
            } else {
                self.white
            },
            black: if m.piece_color == PieceColor::Black {
                [king_side, queen_side]
            } else {
                self.black
            },
        }
    }

    /// The rights that are left after each move of `moves` in turn.
    pub open spec fn after_all(self, moves: Seq<Move>) -> CastlingRights
        decreases moves.len(),
    {
        if moves.len() == 0 {
            self
        } else {
            self.after_all(moves.drop_last()).after(moves.last())
        }
    }

    /// Reads the rights from the castling field of a board description: each
    /// of the letters `K`, `Q`, `k`, `q` that occurs in it opens one castle.
    pub fn from_fen_string(fen: &str) -> (rights: Self)
        ensures
            rights.white[0] == fen@.contains('K'),
            rights.white[1] == fen@.contains('Q'),
            rights.black[0] == fen@.contains('k'),
            rights.black[1] == fen@.contains('q'),
    {
        Self {
            white: [contains_char(fen, 'K'), contains_char(fen, 'Q')],
            black: [contains_char(fen, 'k'), contains_char(fen, 'q')],
        }
    }

    /// Whether `color` may still castle in the direction that `direction`
    /// points to.
    pub fn valid_castle_direction(&self, color: &PieceColor, direction: i32) -> (ok: bool)
        ensures
            ok == self.allows(*color, direction as int),
    {
        let rights = match *color {
            PieceColor::White => &self.white,
            PieceColor::Black => &self.black,
        };
        if direction > 0 {
            rights[0]
        } else if direction < 0 {
            rights[1]
        } else {
            false
        }
    }

    /// Takes away the castles that the move `piece_move` closes.
    pub fn update_after_move(&mut self, piece_move: &Move)
        ensures
            *final(self) == old(self).after(*piece_move),
            final(self).within(*old(self)),
    {
        let kept = match piece_move.piece_color {
            PieceColor::White => self.white,
            PieceColor::Black => self.black,
        };
        let left = if piece_move.piece_type == PieceType::King {
            [false, false]
        } else if piece_move.piece_type == PieceType::Rook {
            if *piece_move.from.file() == 0 {
                [kept[0], false]
            } else if *piece_move.from.file() == 7 {
                [false, kept[1]]
            } else {
                kept
            }
        } else {
            kept
        };
        match piece_move.piece_color {
            PieceColor::White => {
                self.white = left;
            },
            PieceColor::Black => {
                self.black = left;
            },
        }
        assert(same_flags(*self, old(self).after(*piece_move)));
    }
}

/// `a` and `b` agree flag by flag.
spec fn same_flags(a: CastlingRights, b: CastlingRights) -> bool {
    a.white =~= b.white && a.black =~= b.black
}

/// Whether the character `c` occurs in `text`.
pub fn contains_char(text: &str, c: char) -> (found: bool)
    ensures
        found == text@.contains(c),
{
    let n: usize = text.unicode_len();
    let mut i: usize = 0;
    while i < n
        invariant
            n == text@.len(),
            i <= n,
            forall|j: int| 0 <= j < i ==> text@[j] != c,
        decreases n - i,
    {
        if text.get_char(i) == c {
            return true;
        }
        i += 1;
    }
    false
}

/// A castle that is closed stays closed: after a move, no side has a right
/// that it did not have before.
pub proof fn lemma_rights_only_shrink(rights: CastlingRights, m: Move)
    ensures
        rights.after(m).within(rights),
{
}

/// However many moves follow, no side regains a castle: the rights after
/// the whole of `moves` lie within the rights before it.
pub proof fn lemma_rights_never_return(rights: CastlingRights, moves: Seq<Move>)
    ensures
        rights.after_all(moves).within(rights),
    decreases moves.len(),
{
    if moves.len() > 0 {
        lemma_rights_never_return(rights, moves.drop_last());
        lemma_rights_only_shrink(rights.after_all(moves.drop_last()), moves.last());
    }
}

} // verus!
