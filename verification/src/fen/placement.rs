//! The first field of a board description: which piece stands where.

use vstd::prelude::*;
use vstd::string::*;
use crate::fen::{FenError, FenFault};
use crate::piece::{PieceColor, PieceType};
use crate::position::BoardPosition;

verus! {

/// The piece that a letter stands for: upper case for White, lower case for
/// Black; P, N, B, R, Q, K for pawn, knight, bishop, rook, queen, king.
pub open spec fn symbol_piece(c: char) -> Option<(PieceColor, PieceType)> {
    if c == 'P' {
        Some((PieceColor::White, PieceType::Pawn))
    } else if c == 'N' {
        Some((PieceColor::White, PieceType::Knight))
    } else if c == 'B' {
        Some((PieceColor::White, PieceType::Bishop))
    } else if c == 'R' {
        Some((PieceColor::White, PieceType::Rook))
    } else if c == 'Q' {
        Some((PieceColor::White, PieceType::Queen))
    } else if c == 'K' {
        Some((PieceColor::White, PieceType::King))
    } else if c == 'p' {
        Some((PieceColor::Black, PieceType::Pawn))
    } else if c == 'n' {
        Some((PieceColor::Black, PieceType::Knight))
    } else if c == 'b' {
        Some((PieceColor::Black, PieceType::Bishop))
    } else if c == 'r' {
        Some((PieceColor::Black, PieceType::Rook))
    } else if c == 'q' {
        Some((PieceColor::Black, PieceType::Queen))
    } else if c == 'k' {
        Some((PieceColor::Black, PieceType::King))
    } else {
        None
    }
}

/// Whether `c` is one of the digits `1` to `8`, which stand for that many
/// empty squares.
pub open spec fn is_gap(c: char) -> bool {
    '1' <= c <= '8'
}

/// How far reading has come: the pieces placed so far, and the square that
/// the next symbol speaks of.
pub struct Cursor {
    pub placement: Map<BoardPosition, (PieceColor, PieceType)>,
    pub rank: int,
    pub file: int,
}

/// The cursor at the start of the next rank if it has run past the last file
/// of its rank, and as it is if not.
pub open spec fn wrapped(cursor: Cursor) -> Cursor {
    if cursor.file >= 8 {
        Cursor { rank: cursor.rank + 1, file: 0, ..cursor }
    } else {
        cursor
    }
}

/// What one symbol does. A `/` does nothing. A digit from 1 to 8 skips that
/// many files. A piece letter puts its piece on the cursor's square, which
/// must be on the board, and goes on to the next file. After a digit or a
/// letter, a cursor that has run past the last file goes to the start of the
/// next rank. Any other symbol is not recognised.
pub open spec fn read_symbol(cursor: Cursor, c: char) -> Result<Cursor, FenFault> {
    if c == '/' {
        Ok(cursor)
    } else if is_gap(c) {
        Ok(wrapped(Cursor { file: cursor.file + (c as int - '0' as int), ..cursor }))
    } else {
        match symbol_piece(c) {
            None => Err(FenFault::UnrecognisedSymbol(c)),
            Some(piece) => if cursor.rank >= 8 {
                Err(FenFault::PieceOffBoard(c))
            } else {
                Ok(
                    wrapped(
                        Cursor {
                            placement: cursor.placement.insert(
                                BoardPosition::at(cursor.rank, cursor.file),
                                piece,
                            ),
                            file: cursor.file + 1,
                            ..cursor
                        },
                    ),
                )
            },
        }
    }
}

/// Where reading stands after the first `n` symbols of `field`, starting in
/// the top left corner of an empty board; or what went wrong first.
pub open spec fn read_symbols(field: Seq<char>, n: nat) -> Result<Cursor, FenFault>
    decreases n,
{
    if n == 0 {
        Ok(Cursor { placement: Map::empty(), rank: 0, file: 0 })
    } else {
        match read_symbols(field, (n - 1) as nat) {
            Err(fault) => Err(fault),
            Ok(cursor) => read_symbol(cursor, field[n - 1]),
        }
    }
}

/// The pieces that the placement field `field` puts on the board, or what
/// went wrong first.
pub open spec fn read_placement(field: Seq<char>) -> Result<
    Map<BoardPosition, (PieceColor, PieceType)>,
    FenFault,
> {
    match read_symbols(field, field.len()) {
        Err(fault) => Err(fault),
        Ok(cursor) => Ok(cursor.placement),
    }
}

/// The map from the occupied squares of `grid` to what stands on them.
pub open spec fn grid_placement(grid: [[Option<(PieceColor, PieceType)>; 8]; 8]) -> Map<
    BoardPosition,
    (PieceColor, PieceType),
> {
    Map::new(
        |p: BoardPosition| p.on_board() && grid[p.rank_idx()][p.file_idx()] is Some,
        |p: BoardPosition| grid[p.rank_idx()][p.file_idx()]->0,
    )
}

/// What went wrong first stays what went wrong, however many symbols follow.
pub proof fn lemma_fault_stays(field: Seq<char>, n: nat, m: nat)
    requires
        n <= m,
        read_symbols(field, n) is Err,
    ensures
        read_symbols(field, m) == read_symbols(field, n),
    decreases m,
{
    if n < m {
        lemma_fault_stays(field, n, (m - 1) as nat);
    }
}

/// The piece that the letter `c` stands for, if it stands for one.
pub fn piece_of_symbol(c: char) -> (piece: Option<(PieceColor, PieceType)>)
    ensures
        piece == symbol_piece(c),
{
    match c {
        'P' => Some((PieceColor::White, PieceType::Pawn)),
        'N' => Some((PieceColor::White, PieceType::Knight)),
        'B' => Some((PieceColor::White, PieceType::Bishop)),
        'R' => Some((PieceColor::White, PieceType::Rook)),
        'Q' => Some((PieceColor::White, PieceType::Queen)),
        'K' => Some((PieceColor::White, PieceType::King)),
        'p' => Some((PieceColor::Black, PieceType::Pawn)),
        'n' => Some((PieceColor::Black, PieceType::Knight)),
        'b' => Some((PieceColor::Black, PieceType::Bishop)),
        'r' => Some((PieceColor::Black, PieceType::Rook)),
        'q' => Some((PieceColor::Black, PieceType::Queen)),
        'k' => Some((PieceColor::Black, PieceType::King)),
        _ => None,
    }
}

/// Reads the placement field of a board description into a grid of ranks
/// and files.
pub fn parse_placement(field: &str) -> (outcome: Result<
    [[Option<(PieceColor, PieceType)>; 8]; 8],
    FenError,
>)
    ensures
        match read_placement(field@) {
            Ok(placement) => outcome matches Ok(grid) && grid_placement(grid) == placement,
            Err(fault) => outcome matches Err(error) && error@ == fault,
        },
{
    let n: usize = field.unicode_len();
    let row: [Option<(PieceColor, PieceType)>; 8] = [None, None, None, None, None, None, None, None];
    let mut grid: [[Option<(PieceColor, PieceType)>; 8]; 8] = [row, row, row, row, row, row, row, row];
    let mut rank: usize = 0;
    let mut file: usize = 0;
    let mut i: usize = 0;
    assert(grid_placement(grid) =~= Map::empty());
    while i < n
        invariant
            n == field@.len(),
            i <= n,
            rank <= i,
            file < 8,
            read_symbols(field@, i as nat) == Ok::<Cursor, FenFault>(
                Cursor { placement: grid_placement(grid), rank: rank as int, file: file as int },
            ),
        decreases n - i,
    {
        let c = field.get_char(i);
        let ghost cursor = Cursor {
            placement: grid_placement(grid),
            rank: rank as int,
            file: file as int,
        };
        assert(read_symbols(field@, (i + 1) as nat) == read_symbol(cursor, c));
        if c == '/' {
        } else if c >= '1' && c <= '8' {
            file += (c as u32 - '0' as u32) as usize;
            if file >= 8 {
                rank += 1;
                file = 0;
            }
        } else {
            match piece_of_symbol(c) {
                None => {
                    proof {
                        lemma_fault_stays(field@, (i + 1) as nat, n as nat);
                    }
                    return Err(FenError::UnrecognisedSymbol(c));
                },
                Some(piece) => {
                    if rank >= 8 {
                        proof {
                            lemma_fault_stays(field@, (i + 1) as nat, n as nat);
                        }
                        return Err(FenError::PieceOffBoard(c));
                    }
                    grid[rank][file] = Some(piece);
                    assert(grid_placement(grid) =~= cursor.placement.insert(
                        BoardPosition::at(rank as int, file as int),
                        piece,
                    ));
                    file += 1;
                    if file >= 8 {
                        rank += 1;
                        file = 0;
                    }
                },
            }
        }
        i += 1;
    }
    Ok(grid)
}

/// The letter that stands for a piece of the given colour and kind.
pub open spec fn piece_symbol(color: PieceColor, kind: PieceType) -> char {
    match (color, kind) {
        (PieceColor::White, PieceType::Pawn) => 'P',
        (PieceColor::White, PieceType::Knight) => 'N',
        (PieceColor::White, PieceType::Bishop) => 'B',
        (PieceColor::White, PieceType::Rook) => 'R',
        (PieceColor::White, PieceType::Queen) => 'Q',
        (PieceColor::White, PieceType::King) => 'K',
        (PieceColor::Black, PieceType::Pawn) => 'p',
        (PieceColor::Black, PieceType::Knight) => 'n',
        (PieceColor::Black, PieceType::Bishop) => 'b',
        (PieceColor::Black, PieceType::Rook) => 'r',
        (PieceColor::Black, PieceType::Queen) => 'q',
        (PieceColor::Black, PieceType::King) => 'k',
    }
}

/// The plainest text that describes `placement`: one symbol for each square
/// in scan order, the letter of the piece on it or `1` for an empty square.
pub open spec fn plain_text(placement: Map<BoardPosition, (PieceColor, PieceType)>) -> Seq<char> {
    Seq::new(
        64,
        |i: int|
            {
                let p = BoardPosition::nth(i);
                if placement.dom().contains(p) {
                    let (color, kind) = placement[p];
                    piece_symbol(color, kind)
                } else {
                    '1'
                }
            },
    )
}

/// What `placement` holds on the first `n` squares of scan order.
pub open spec fn first_squares(placement: Map<BoardPosition, (PieceColor, PieceType)>, n: int) -> Map<
    BoardPosition,
    (PieceColor, PieceType),
> {
    Map::new(
        |p: BoardPosition| placement.dom().contains(p) && p.on_board() && p.scan_index() < n,
        |p: BoardPosition| placement[p],
    )
}

/// After the first `n` symbols of the plain text of a placement, reading
/// has placed what stands on the first `n` squares and has come to square
/// number `n`.
proof fn lemma_plain_text_reads_so_far(
    placement: Map<BoardPosition, (PieceColor, PieceType)>,
    n: nat,
)
    requires
        n <= 64,
    ensures
        read_symbols(plain_text(placement), n) == Ok::<Cursor, FenFault>(
            Cursor {
                placement: first_squares(placement, n as int),
                rank: n as int / 8,
                file: n as int % 8,
            },
        ),
    decreases n,
{
    if n == 0 {
        assert(first_squares(placement, 0) =~= Map::empty());
    } else {
        lemma_plain_text_reads_so_far(placement, (n - 1) as nat);
        let p = BoardPosition::nth(n - 1);
        crate::position::lemma_nth_on_board(n - 1);
        let before = first_squares(placement, n - 1);
        if placement.dom().contains(p) {
            assert(first_squares(placement, n as int) =~= before.insert(p, placement[p]));
        } else {
            assert(first_squares(placement, n as int) =~= before);
        }
    }
}

/// Every placement on the squares of the board has a text that describes
/// it: reading its plain text gives the placement back, piece by piece.
pub proof fn lemma_plain_text_reads_back(placement: Map<BoardPosition, (PieceColor, PieceType)>)
    requires
        forall|p: BoardPosition| #[trigger] placement.dom().contains(p) ==> p.on_board(),
    ensures
        read_placement(plain_text(placement)) == Ok::<
            Map<BoardPosition, (PieceColor, PieceType)>,
            FenFault,
        >(placement),
{
    lemma_plain_text_reads_so_far(placement, 64);
    assert forall|p: BoardPosition| #[trigger] placement.dom().contains(p) implies p.scan_index()
        < 64 by {
        crate::position::lemma_scan_index_inverts_nth(p);
    }
    assert(first_squares(placement, 64) =~= placement);
}

/// How many squares a symbol speaks of: a digit from 1 to 8 of that many,
/// the letter of a piece of one, and any other symbol of none.
pub open spec fn width(c: char) -> int {
    if is_gap(c) {
        c as int - '0' as int
    } else if symbol_piece(c) is Some {
        1
    } else {
        0
    }
}

/// How many squares the first `n` symbols of `field` speak of.
pub open spec fn covered(field: Seq<char>, n: nat) -> int
    decreases n,
{
    if n == 0 {
        0
    } else {
        covered(field, (n - 1) as nat) + width(field[n - 1])
    }
}

/// What the first `n` symbols of `field` say, written out square by
/// square: each digit as that many empty squares, each letter as its piece,
/// and the slashes left out.
pub open spec fn expanded(field: Seq<char>, n: nat) -> Seq<Option<(PieceColor, PieceType)>>
    decreases n,
{
    if n == 0 {
        Seq::empty()
    } else {
        let before = expanded(field, (n - 1) as nat);
        let c = field[n - 1];
        if is_gap(c) {
            before + Seq::new(width(c) as nat, |i: int| None)
        } else {
            match symbol_piece(c) {
                Some(piece) => before.push(Some(piece)),
                None => before,
            }
        }
    }
}

/// The pieces of a board that is written out square by square, in scan
/// order: rank `r` of the board is what stands at the places from `8 * r` on.
pub open spec fn cells_placement(cells: Seq<Option<(PieceColor, PieceType)>>) -> Map<
    BoardPosition,
    (PieceColor, PieceType),
> {
    Map::new(
        |p: BoardPosition| p.on_board() && p.scan_index() < cells.len() && cells[p.scan_index()] is Some,
        |p: BoardPosition| cells[p.scan_index()]->0,
    )
}

/// No symbol of `field` is unknown, and none runs past the end of its rank.
pub open spec fn ranks_hold(field: Seq<char>) -> bool {
    &&& forall|i: int|
        0 <= i < field.len() ==> (#[trigger] field[i]) == '/' || is_gap(field[i]) || symbol_piece(
            field[i],
        ) is Some
    &&& forall|i: int|
        0 <= i < field.len() ==> covered(field, i as nat) % 8 + width(#[trigger] field[i]) <= 8
}

/// `field` is a placement field as the notation defines it: eight ranks
/// with a slash between one and the next, each made of piece letters and
/// digits from 1 to 8 that speak of exactly eight squares.
pub open spec fn well_formed(field: Seq<char>) -> bool {
    &&& ranks_hold(field)
    &&& covered(field, field.len()) == 64
    &&& forall|i: int|
        0 <= i < field.len() && (#[trigger] field[i]) == '/' ==> {
            &&& 0 < covered(field, i as nat) < 64
            &&& covered(field, i as nat) % 8 == 0
            &&& i > 0 && field[i - 1] != '/'
        }
    &&& forall|i: int|
        0 < i < field.len() && covered(field, i as nat) % 8 == 0 && field[i - 1] != '/'
            ==> (#[trigger] field[i]) == '/'
    &&& field.len() > 0 && field.last() != '/'
}

/// The more symbols, the more squares they speak of.
pub proof fn lemma_covered_grows(field: Seq<char>, n: nat, m: nat)
    requires
        n <= m,
    ensures
        0 <= covered(field, n) <= covered(field, m),
    decreases m,
{
    if m > 0 {
        if n < m {
            lemma_covered_grows(field, n, (m - 1) as nat);
        } else {
            lemma_covered_grows(field, (n - 1) as nat, (m - 1) as nat);
        }
    }
}

/// Empty squares written after a board that is written out square by
/// square add no piece to it.
proof fn lemma_empty_squares_add_nothing(cells: Seq<Option<(PieceColor, PieceType)>>, gap: nat)
    ensures
        cells_placement(cells + Seq::new(gap, |i: int| None::<(PieceColor, PieceType)>))
            == cells_placement(cells),
{
    let longer = cells + Seq::new(gap, |i: int| None::<(PieceColor, PieceType)>);
    assert forall|p: BoardPosition|
        cells_placement(longer).dom().contains(p) <==> cells_placement(cells).dom().contains(
            p,
        ) by {
        if p.scan_index() < cells.len() {
            assert(longer[p.scan_index()] == cells[p.scan_index()]);
        }
    }
    assert(cells_placement(longer) =~= cells_placement(cells));
}

/// A piece written after a board that is written out square by square
/// stands on the square that comes next in scan order.
proof fn lemma_next_square_takes_the_piece(
    cells: Seq<Option<(PieceColor, PieceType)>>,
    piece: (PieceColor, PieceType),
)
    requires
        cells.len() < 64,
    ensures
        cells_placement(cells.push(Some(piece))) == cells_placement(cells).insert(
            BoardPosition::nth(cells.len() as int),
            piece,
        ),
{
    let next = BoardPosition::nth(cells.len() as int);
    let longer = cells.push(Some(piece));
    crate::position::lemma_nth_on_board(cells.len() as int);
    assert forall|p: BoardPosition| p.on_board() && p.scan_index() == cells.len() implies p
        == next by {
        crate::position::lemma_scan_index_inverts_nth(p);
    }
    assert forall|p: BoardPosition|
        cells_placement(longer).dom().contains(p) <==> cells_placement(cells).insert(
            next,
            piece,
        ).dom().contains(p) by {
        if p.scan_index() < cells.len() {
            assert(longer[p.scan_index()] == cells[p.scan_index()]);
        }
    }
    assert forall|p: BoardPosition| cells_placement(longer).dom().contains(p) implies
        cells_placement(longer)[p] == cells_placement(cells).insert(next, piece)[p] by {
        if p.scan_index() < cells.len() {
            assert(longer[p.scan_index()] == cells[p.scan_index()]);
        }
    }
    assert(cells_placement(longer) =~= cells_placement(cells).insert(next, piece));
}

/// Going `step` squares on from square number `reached`, without running
/// past the end of the rank, leads to square number `reached + step`; from
/// the last file of a rank, to the first of the next.
proof fn lemma_wrapped_is_next_square(reached: int, step: int)
    requires
        0 <= reached,
        0 <= step,
        reached % 8 + step <= 8,
    ensures
        wrapped(
            Cursor { placement: Map::empty(), rank: reached / 8, file: reached % 8 + step },
        ).rank == (reached + step) / 8,
        wrapped(
            Cursor { placement: Map::empty(), rank: reached / 8, file: reached % 8 + step },
        ).file == (reached + step) % 8,
{
}

/// After the first `n` symbols of a field whose ranks hold, and which
/// speaks of no more squares than the board has, reading has placed what
/// those symbols say, square by square, and has come to the square after
/// them.
pub proof fn lemma_reads_as_written_so_far(field: Seq<char>, n: nat)
    requires
        n <= field.len(),
        ranks_hold(field),
        covered(field, field.len()) <= 64,
    ensures
        expanded(field, n).len() == covered(field, n),
        read_symbols(field, n) == Ok::<Cursor, FenFault>(
            Cursor {
                placement: cells_placement(expanded(field, n)),
                rank: covered(field, n) / 8,
                file: covered(field, n) % 8,
            },
        ),
    decreases n,
{
    if n == 0 {
        assert(cells_placement(expanded(field, 0)) =~= Map::empty());
    } else {
        lemma_reads_as_written_so_far(field, (n - 1) as nat);
        lemma_covered_grows(field, (n - 1) as nat, n);
        lemma_covered_grows(field, n, field.len());
        let c = field[n - 1];
        let before = expanded(field, (n - 1) as nat);
        let reached = covered(field, (n - 1) as nat);
        let cursor = Cursor {
            placement: cells_placement(before),
            rank: reached / 8,
            file: reached % 8,
        };
        assert(read_symbols(field, n) == read_symbol(cursor, c));
        assert(c == '/' || is_gap(c) || symbol_piece(c) is Some);
        assert(reached % 8 + width(c) <= 8);
        lemma_wrapped_is_next_square(reached, width(c));
        if c == '/' {
        } else if is_gap(c) {
            lemma_empty_squares_add_nothing(before, width(c) as nat);
        } else {
            let piece = symbol_piece(c)->0;
            assert(reached < 64);
            lemma_next_square_takes_the_piece(before, piece);
        }
    }
}

/// Every placement field that the notation allows reads as it is written:
/// the board holds, square by square, what the field says when its digits
/// are written out as empty squares and its eight ranks are laid under each
/// other, and holds nothing else.
pub proof fn lemma_well_formed_field_reads_as_written(field: Seq<char>)
    requires
        well_formed(field),
    ensures
        expanded(field, field.len()).len() == 64,
        read_placement(field) == Ok::<Map<BoardPosition, (PieceColor, PieceType)>, FenFault>(
            cells_placement(expanded(field, field.len())),
        ),
{
    lemma_reads_as_written_so_far(field, field.len());
}

} // verus!
