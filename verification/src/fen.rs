//! Board descriptions in Forsyth–Edwards Notation.

use vstd::prelude::*;
use vstd::string::*;
use crate::castling_rights::CastlingRights;
use crate::fen::number::{parse_i32, read_i32};
use crate::fen::placement::{grid_placement, parse_placement, read_placement};
use crate::fen::text::{
    field, field_bounds, field_end, lemma_field_bounds_in_range, next_field, nth_field_bounds,
};
use crate::piece::{PieceColor, PieceType};
use crate::position::BoardPosition;

pub mod number;
pub mod placement;
pub mod text;

verus! {

/// The description of the position in which a game starts.
pub const STARTING_FEN: &'static str = "rnbqkbnr/pppppppp/8/8/8/8/PPPPPPPP/RNBQKBNR w KQkq - 0 1";

/// Why a text is not a board description.
#[derive(Debug, PartialEq, Eq)]
pub enum FenError {
    /// The text has no field with this number, counting from 0.
    MissingField(usize),
    /// The placement field holds a symbol that is neither `/`, nor a digit
    /// from 1 to 8, nor the letter of a piece.
    UnrecognisedSymbol(char),
    /// The placement field puts a piece on a rank below the last.
    PieceOffBoard(char),
    /// The active colour is neither `w` nor `b`.
    UnrecognisedActiveColor(String),
    /// The en passant field is not `-` and has fewer than two characters.
    IncompleteEnPassantSquare,
    /// The second character of the en passant field is no digit from 0 to 7.
    UnexpectedRankChar(char),
    /// The first character of the en passant field is no letter from a to h.
    UnexpectedFileChar(char),
    /// The halfmove clock is no number of 32 bits.
    InvalidHalfmoveClock,
    /// The fullmove number is no number of 32 bits.
    InvalidFullmoveNumber,
}

/// Why a text is not a board description, as contracts speak of it.
pub enum FenFault {
    MissingField(usize),
    UnrecognisedSymbol(char),
    PieceOffBoard(char),
    UnrecognisedActiveColor(Seq<char>),
    IncompleteEnPassantSquare,
    UnexpectedRankChar(char),
    UnexpectedFileChar(char),
    InvalidHalfmoveClock,
    InvalidFullmoveNumber,
}

impl View for FenError {
    type V = FenFault;

    open spec fn view(&self) -> FenFault {
        match self {
            FenError::MissingField(n) => FenFault::MissingField(*n),
            FenError::UnrecognisedSymbol(c) => FenFault::UnrecognisedSymbol(*c),
            FenError::PieceOffBoard(c) => FenFault::PieceOffBoard(*c),
            FenError::UnrecognisedActiveColor(value) => FenFault::UnrecognisedActiveColor(value@),
            FenError::IncompleteEnPassantSquare => FenFault::IncompleteEnPassantSquare,
            FenError::UnexpectedRankChar(c) => FenFault::UnexpectedRankChar(*c),
            FenError::UnexpectedFileChar(c) => FenFault::UnexpectedFileChar(*c),
            FenError::InvalidHalfmoveClock => FenFault::InvalidHalfmoveClock,
            FenError::InvalidFullmoveNumber => FenFault::InvalidFullmoveNumber,
        }
    }
}

/// What a board description says.
pub struct FenData {
    /// The occupied squares and what stands on them.
    pub placement: Map<BoardPosition, (PieceColor, PieceType)>,
    /// The side to move.
    pub active_color: PieceColor,
    /// The castles still open to each side.
    pub castling_rights: CastlingRights,
    /// The square over which a pawn has just passed by its double step.
    pub ep_target_square: Option<BoardPosition>,
    /// The number of halfmoves since the last capture or pawn move.
    pub halfmove_clock: i32,
    /// The number of the move that is being played.
    pub fullmove_number: i32,
}

/// A board description, read.
#[derive(Debug, Clone, Copy)]
pub struct Fen {
    pub(crate) piece_placement: [[Option<(PieceColor, PieceType)>; 8]; 8],
    pub(crate) active_color: PieceColor,
    pub(crate) castling_rights: CastlingRights,
    pub(crate) ep_target_square: Option<BoardPosition>,
    pub(crate) halfmove_clock: i32,
    pub(crate) fullmove_number: i32,
}

/// The side that the active colour field names: `w` is White, `b` is Black.
pub open spec fn read_active_color(field: Seq<char>) -> Result<PieceColor, FenFault> {
    if field == seq!['w'] {
        Ok(PieceColor::White)
    } else if field == seq!['b'] {
        Ok(PieceColor::Black)
    } else {
        Err(FenFault::UnrecognisedActiveColor(field))
    }
}

/// The castles that the castling field opens: one for each of the letters
/// `K`, `Q`, `k`, `q` that occurs in it.
pub open spec fn read_castling_rights(field: Seq<char>) -> CastlingRights {
    CastlingRights {
        white: [field.contains('K'), field.contains('Q')],
        black: [field.contains('k'), field.contains('q')],
    }
}

/// Whether `c` names a rank in the en passant field: a digit from 0 to 7.
pub open spec fn is_rank_char(c: char) -> bool {
    '0' <= c <= '7'
}

/// Whether `c` names a file: a letter from a to h.
pub open spec fn is_file_char(c: char) -> bool {
    'a' <= c <= 'h'
}

/// The square that the en passant field names: none for `-`; else the file
/// by its first character and the rank by its second, the digit being the
/// number of the rank. What follows the second character is not read.
pub open spec fn read_en_passant(field: Seq<char>) -> Result<Option<BoardPosition>, FenFault> {
    if field == seq!['-'] {
        Ok(None)
    } else if field.len() < 2 {
        Err(FenFault::IncompleteEnPassantSquare)
    } else if !is_rank_char(field[1]) {
        Err(FenFault::UnexpectedRankChar(field[1]))
    } else if !is_file_char(field[0]) {
        Err(FenFault::UnexpectedFileChar(field[0]))
    } else {
        Ok(Some(BoardPosition::at(field[1] as int - '0' as int, field[0] as int - 'a' as int)))
    }
}

/// What the board description `text` says, or why it is none. The text is
/// split at white space into fields, of which the first six are read, in
/// order: the placement of the pieces, the active colour, the castling
/// rights, the en passant square, the halfmove clock and the fullmove
/// number. The first field that is missing or at fault decides the error.
pub open spec fn read_fen(text: Seq<char>) -> Result<FenData, FenFault> {
    if field(text, 0) is None {
        Err(FenFault::MissingField(0))
    } else if read_placement(field(text, 0)->0) is Err {
        Err(read_placement(field(text, 0)->0)->Err_0)
    } else if field(text, 1) is None {
        Err(FenFault::MissingField(1))
    } else if read_active_color(field(text, 1)->0) is Err {
        Err(read_active_color(field(text, 1)->0)->Err_0)
    } else if field(text, 2) is None {
        Err(FenFault::MissingField(2))
    } else if field(text, 3) is None {
        Err(FenFault::MissingField(3))
    } else if read_en_passant(field(text, 3)->0) is Err {
        Err(read_en_passant(field(text, 3)->0)->Err_0)
    } else if field(text, 4) is None {
        Err(FenFault::MissingField(4))
    } else if read_i32(field(text, 4)->0) is None {
        Err(FenFault::InvalidHalfmoveClock)
    } else if field(text, 5) is None {
        Err(FenFault::MissingField(5))
    } else if read_i32(field(text, 5)->0) is None {
        Err(FenFault::InvalidFullmoveNumber)
    } else {
        Ok(
            FenData {
                placement: read_placement(field(text, 0)->0)->Ok_0,
                active_color: read_active_color(field(text, 1)->0)->Ok_0,
                castling_rights: read_castling_rights(field(text, 2)->0),
                ep_target_square: read_en_passant(field(text, 3)->0)->Ok_0,
                halfmove_clock: read_i32(field(text, 4)->0)->0,
                fullmove_number: read_i32(field(text, 5)->0)->0,
            },
        )
    }
}

impl View for Fen {
    type V = FenData;

    open(crate) spec fn view(&self) -> FenData {
        FenData {
            placement: grid_placement(self.piece_placement),
            active_color: self.active_color,
            castling_rights: self.castling_rights,
            ep_target_square: self.ep_target_square,
            halfmove_clock: self.halfmove_clock,
            fullmove_number: self.fullmove_number,
        }
    }
}

/// Field number `n` of `text`, where the fields before it end at `from`.
fn take_field<'a>(text: &'a str, from: usize, n: usize) -> (found: Result<(&'a str, usize), FenError>)
    requires
        from <= text@.len(),
        n < 6,
        n == 0 ==> from == 0,
        n > 0 ==> field_end(text@, (n - 1) as nat) == Some(from as int),
    ensures
        match field(text@, n as nat) {
            Some(content) => match found {
                Ok((word, end)) => word@ == content && end <= text@.len() && field_end(
                    text@,
                    n as nat,
                ) == Some(end as int),
                Err(_) => false,
            },
            None => found matches Err(error) && error@ == FenFault::MissingField(n),
        },
{
    proof {
        reveal_with_fuel(nth_field_bounds, 7);
        lemma_field_bounds_in_range(text@, from as int);
        lemma_nth_field_continues(text@, n as nat);
    }
    match next_field(text, from) {
        None => Err(FenError::MissingField(n)),
        Some((start, end)) => Ok((text.substring_char(start, end), end)),
    }
}

/// Field number `n` is the next field after the end of field number `n - 1`.
proof fn lemma_nth_field_continues(text: Seq<char>, n: nat)
    ensures
        n == 0 ==> nth_field_bounds(text, 0, n) == field_bounds(text, 0),
        n > 0 ==> nth_field_bounds(text, 0, n) == match nth_field_bounds(text, 0, (n - 1) as nat) {
            Some((_, end)) => field_bounds(text, end),
            None => None,
        },
{
    lemma_nth_field_from(text, 0, n);
}

/// Counting fields from place `i` on, field number `n` is the next field
/// after the end of field number `n - 1`.
proof fn lemma_nth_field_from(text: Seq<char>, i: int, n: nat)
    ensures
        n == 0 ==> nth_field_bounds(text, i, n) == field_bounds(text, i),
        n > 0 ==> nth_field_bounds(text, i, n) == match nth_field_bounds(text, i, (n - 1) as nat) {
            Some((_, end)) => field_bounds(text, end),
            None => None,
        },
    decreases n,
{
    if n > 0 {
        match field_bounds(text, i) {
            None => {},
            Some((start, end)) => {
                lemma_nth_field_from(text, end, (n - 1) as nat);
            },
        }
    }
}

impl Fen {
    /// Reads the board description `fen_string`, or says why it is none.
    pub fn parse(fen_string: &str) -> (outcome: Result<Fen, FenError>)
        ensures
            match read_fen(fen_string@) {
                Ok(data) => outcome matches Ok(fen) && fen@ == data,
                Err(fault) => outcome matches Err(error) && error@ == fault,
            },
    {
        let (placement_field, end) = match take_field(fen_string, 0, 0) {
            Ok(found) => found,
            Err(error) => {
                return Err(error);
            },
        };
        let piece_placement = match parse_placement(placement_field) {
            Ok(grid) => grid,
            Err(error) => {
                return Err(error);
            },
        };
        let (color_field, end) = match take_field(fen_string, end, 1) {
            Ok(found) => found,
            Err(error) => {
                return Err(error);
            },
        };
        let active_color = match parse_active_color(color_field) {
            Ok(color) => color,
            Err(error) => {
                return Err(error);
            },
        };
        let (castling_field, end) = match take_field(fen_string, end, 2) {
            Ok(found) => found,
            Err(error) => {
                return Err(error);
            },
        };
        let castling_rights = CastlingRights::from_fen_string(castling_field);
        let (en_passant_field, end) = match take_field(fen_string, end, 3) {
            Ok(found) => found,
            Err(error) => {
                return Err(error);
            },
        };
        let ep_target_square = match parse_en_passant(en_passant_field) {
            Ok(square) => square,
            Err(error) => {
                return Err(error);
            },
        };
        let (halfmove_field, end) = match take_field(fen_string, end, 4) {
            Ok(found) => found,
            Err(error) => {
                return Err(error);
            },
        };
        let halfmove_clock = match parse_i32(halfmove_field) {
            Some(number) => number,
            None => {
                return Err(FenError::InvalidHalfmoveClock);
            },
        };
        let (fullmove_field, _) = match take_field(fen_string, end, 5) {
            Ok(found) => found,
            Err(error) => {
                return Err(error);
            },
        };
        let fullmove_number = match parse_i32(fullmove_field) {
            Some(number) => number,
            None => {
                return Err(FenError::InvalidFullmoveNumber);
            },
        };
        let fen = Fen {
            piece_placement,
            active_color,
            castling_rights,
            ep_target_square,
            halfmove_clock,
            fullmove_number,
        };
        assert(fen@.castling_rights.white =~= read_castling_rights(castling_field@).white);
        assert(fen@.castling_rights.black =~= read_castling_rights(castling_field@).black);
        Ok(fen)
    }

    /// Reads the board description `fen_string`, which must be one.
    pub fn from_string(fen_string: &str) -> (fen: Self)
        requires
            read_fen(fen_string@) is Ok,
        ensures
            Ok::<FenData, FenFault>(fen@) == read_fen(fen_string@),
    {
        match Fen::parse(fen_string) {
            Ok(fen) => fen,
            Err(_) => vstd::pervasive::unreached(),
        }
    }

    /// What stands on each square: by rank, then by file.
    pub fn piece_placement(&self) -> (grid: &[[Option<(PieceColor, PieceType)>; 8]; 8])
        ensures
            grid_placement(*grid) == self@.placement,
    {
        &self.piece_placement
    }

    /// The side to move.
    pub fn active_color(&self) -> (color: &PieceColor)
        ensures
            *color == self@.active_color,
    {
        &self.active_color
    }

    /// The castles still open to each side.
    pub fn castling_rights(&self) -> (rights: &CastlingRights)
        ensures
            *rights == self@.castling_rights,
    {
        &self.castling_rights
    }

    /// The square over which a pawn has just passed by its double step.
    pub fn ep_target_square(&self) -> (square: &Option<BoardPosition>)
        ensures
            *square == self@.ep_target_square,
    {
        &self.ep_target_square
    }

    /// The number of halfmoves since the last capture or pawn move.
    pub fn halfmove_clock(&self) -> (clock: &i32)
        ensures
            *clock == self@.halfmove_clock,
    {
        &self.halfmove_clock
    }

    /// The number of the move that is being played.
    pub fn fullmove_number(&self) -> (number: &i32)
        ensures
            *number == self@.fullmove_number,
    {
        &self.fullmove_number
    }

    /// The rank that a digit of the en passant field names.
    pub fn char_to_rank(char: char) -> (rank: usize)
        requires
            is_rank_char(char),
        ensures
            rank == char as int - '0' as int,
            rank < 8,
    {
        (char as u32 - '0' as u32) as usize
    }

    /// The file that a letter names.
    pub fn char_to_file(char: char) -> (file: usize)
        requires
            is_file_char(char),
        ensures
            file == char as int - 'a' as int,
            file < 8,
    {
        (char as u32 - 'a' as u32) as usize
    }
}

/// The kind of piece that starts the game on the given file of a back rank.
pub open spec fn back_rank_kind(file: int) -> PieceType {
    if file == 0 || file == 7 {
        PieceType::Rook
    } else if file == 1 || file == 6 {
        PieceType::Knight
    } else if file == 2 || file == 5 {
        PieceType::Bishop
    } else if file == 3 {
        PieceType::Queen
    } else {
        PieceType::King
    }
}

/// Where the pieces stand when a game starts: Black's pieces on rank 0 and
/// its pawns on rank 1, White's pawns on rank 6 and its pieces on rank 7.
pub open spec fn starting_placement() -> Map<BoardPosition, (PieceColor, PieceType)> {
    Map::new(
        |p: BoardPosition| p.on_board() && (p.rank_idx() <= 1 || p.rank_idx() >= 6),
        |p: BoardPosition|
            (
                if p.rank_idx() <= 1 {
                    PieceColor::Black
                } else {
                    PieceColor::White
                },
                if p.rank_idx() == 1 || p.rank_idx() == 6 {
                    PieceType::Pawn
                } else {
                    back_rank_kind(p.file_idx())
                },
            ),
    )
}

/// The description of the starting position is a board description, and
/// says what the rules of chess say: the pieces on their first squares,
/// White to move, every castle open, no en passant square, the first move.
pub proof fn lemma_starting_fen_reads()
    ensures
        read_fen(STARTING_FEN@) is Ok,
        read_fen(STARTING_FEN@)->Ok_0.placement == starting_placement(),
        read_fen(STARTING_FEN@)->Ok_0.castling_rights.white[0],
        read_fen(STARTING_FEN@)->Ok_0.castling_rights.white[1],
        read_fen(STARTING_FEN@)->Ok_0.castling_rights.black[0],
        read_fen(STARTING_FEN@)->Ok_0.castling_rights.black[1],
        read_fen(STARTING_FEN@)->Ok_0.active_color == PieceColor::White,
        read_fen(STARTING_FEN@)->Ok_0.fullmove_number == 1,
        read_fen(STARTING_FEN@)->Ok_0.halfmove_clock == 0,
        read_fen(STARTING_FEN@)->Ok_0.ep_target_square is None,
{
    reveal_strlit("rnbqkbnr/pppppppp/8/8/8/8/PPPPPPPP/RNBQKBNR w KQkq - 0 1");
    let s = STARTING_FEN@;
    assert(s.len() == 56);
    reveal_with_fuel(crate::fen::text::word_start, 4);
    reveal_with_fuel(crate::fen::text::word_end, 50);
    reveal_with_fuel(nth_field_bounds, 7);
    reveal_with_fuel(crate::fen::placement::read_symbols, 45);
    reveal_with_fuel(crate::fen::number::decimal, 3);
    assert(field(s, 0) == Some(s.subrange(0, 43)));
    assert(read_placement(s.subrange(0, 43)) is Ok);
    assert(read_placement(s.subrange(0, 43))->Ok_0 =~= starting_placement());
    assert(field(s, 1) == Some(s.subrange(44, 45)));
    assert(s.subrange(44, 45) =~= seq!['w']);
    assert(field(s, 2) == Some(s.subrange(46, 50)));
    assert(s.subrange(46, 50)[0] == 'K' && s.subrange(46, 50)[1] == 'Q' && s.subrange(46, 50)[2]
        == 'k' && s.subrange(46, 50)[3] == 'q');
    assert(field(s, 3) == Some(s.subrange(51, 52)));
    assert(s.subrange(51, 52) =~= seq!['-']);
    assert(field(s, 4) == Some(s.subrange(53, 54)));
    assert(read_i32(s.subrange(53, 54)) == Some(0i32));
    assert(field(s, 5) == Some(s.subrange(55, 56)));
    assert(read_i32(s.subrange(55, 56)) == Some(1i32));
}

impl Default for Fen {
    /// The description of the starting position, read.
    fn default() -> (fen: Self)
        ensures
            Ok::<FenData, FenFault>(fen@) == read_fen(STARTING_FEN@),
    {
        proof {
            lemma_starting_fen_reads();
        }
        Fen::from_string(STARTING_FEN)
    }
}

/// Reads the active colour field.
fn parse_active_color(field: &str) -> (outcome: Result<PieceColor, FenError>)
    ensures
        match read_active_color(field@) {
            Ok(color) => outcome == Ok::<PieceColor, FenError>(color),
            Err(fault) => outcome matches Err(error) && error@ == fault,
        },
{
    if field.unicode_len() == 1 {
        let c = field.get_char(0);
        if c == 'w' {
            assert(field@ =~= seq!['w']);
            return Ok(PieceColor::White);
        }
        if c == 'b' {
            assert(field@ =~= seq!['b']);
            return Ok(PieceColor::Black);
        }
    }
    Err(FenError::UnrecognisedActiveColor(field.to_owned()))
}

/// Reads the en passant field.
fn parse_en_passant(field: &str) -> (outcome: Result<Option<BoardPosition>, FenError>)
    ensures
        match read_en_passant(field@) {
            Ok(square) => outcome == Ok::<Option<BoardPosition>, FenError>(square),
            Err(fault) => outcome matches Err(error) && error@ == fault,
        },
{
    let n: usize = field.unicode_len();
    if n == 1 && field.get_char(0) == '-' {
        assert(field@ =~= seq!['-']);
        return Ok(None);
    }
    if n < 2 {
        return Err(FenError::IncompleteEnPassantSquare);
    }
    let rank_char = field.get_char(1);
    let file_char = field.get_char(0);
    if !(rank_char >= '0' && rank_char <= '7') {
        return Err(FenError::UnexpectedRankChar(rank_char));
    }
    if !(file_char >= 'a' && file_char <= 'h') {
        return Err(FenError::UnexpectedFileChar(file_char));
    }
    Ok(Some(BoardPosition::new(Fen::char_to_rank(rank_char), Fen::char_to_file(file_char))))
}

} // verus!
