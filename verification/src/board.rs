//! The position snapshot and its text form.
//!
//! A position stores, for each square, the piece that stands on it with its
//! side (one of twelve identities), and beside that table one bitboard for
//! each of the twelve and one for each side. The kind without the side is
//! had from the identity where a move needs it.

use crate::bit;
use crate::bit::is_set;
use crate::round_trip::lemma_decode_encode;
use crate::text::{
    chars_of, decimal, digit, digit_of, parse_u64, push_decimal, read_u64, split, split_at_each,
};
use crate::{CastlePerm, Color, ColoredPiece, Square};
use vstd::prelude::*;
use vstd::string::StringExecFns;

verus! {

/// What a position holds; the bitboards follow from `squares`.
pub struct Position {
    /// Whether it is White's turn to move.
    pub white_to_move: bool,
    /// The number of half moves since the last capture or pawn move.
    pub halfmove: u64,
    /// The number of the full move.
    pub fullmove: u64,
    /// The castling permissions, a set of the four flags of `CastlePerm`.
    pub castling: u8,
    /// The en passant target square.
    pub en_passant: Option<Square>,
    /// The piece on each of the 64 squares.
    pub squares: Seq<Option<ColoredPiece>>,
}

impl Position {
    /// The table has 64 entries and the castling set holds no other flag.
    pub open spec fn well_formed(self) -> bool {
        &&& self.squares.len() == 64
        &&& self.castling < 16
    }
}

/// Where the reader of a placement stands: the rank and file of the next
/// square, and the table as far as it is filled.
pub struct Cursor {
    pub rank: int,
    pub file: int,
    pub squares: Seq<Option<ColoredPiece>>,
}

/// The board without a piece.
pub open spec fn no_pieces() -> Seq<Option<ColoredPiece>> {
    Seq::new(64, |i: int| None::<ColoredPiece>)
}

/// Where a placement begins: at the a-file of the eighth rank.
pub open spec fn origin() -> Cursor {
    Cursor { rank: 7, file: 0, squares: no_pieces() }
}

/// Whether `c` is a digit that a placement takes: `1` to `8`.
pub open spec fn is_skip(c: char) -> bool {
    '1' as int <= c as int <= '8' as int
}

/// One character of a placement. `/` goes to the a-file of the rank below;
/// a digit from 1 to 8 passes that many squares; a piece's letter puts the
/// piece on the square and passes it. No step leaves the rank by its end
/// or the board by its first rank, and no other character is taken.
pub open spec fn advance(cur: Cursor, c: char) -> Option<Cursor> {
    if c == '/' {
        if cur.rank > 0 {
            Some(Cursor { rank: cur.rank - 1, file: 0, squares: cur.squares })
        } else {
            None
        }
    } else if is_skip(c) {
        let n = c as int - '0' as int;
        if cur.file + n <= 8 {
            Some(Cursor { rank: cur.rank, file: cur.file + n, squares: cur.squares })
        } else {
            None
        }
    } else {
        match ColoredPiece::from_glyph(c) {
            Some(p) => if cur.file < 8 {
                Some(
                    Cursor {
                        rank: cur.rank,
                        file: cur.file + 1,
                        squares: cur.squares.update(cur.rank * 8 + cur.file, Some(p)),
                    },
                )
            } else {
                None
            },
            None => None,
        }
    }
}

/// Where the reader stands after the characters of `s`, from `cur` on.
pub open spec fn run(cur: Cursor, s: Seq<char>) -> Option<Cursor>
    decreases s.len(),
{
    if s.len() == 0 {
        Some(cur)
    } else {
        match run(cur, s.drop_last()) {
            Some(mid) => advance(mid, s.last()),
            None => None,
        }
    }
}

/// The table that the placement `s` describes. A placement may stop
/// before the last square: the squares it does not reach are empty.
pub open spec fn placement_of(s: Seq<char>) -> Option<Seq<Option<ColoredPiece>>> {
    match run(origin(), s) {
        Some(cur) => Some(cur.squares),
        None => None,
    }
}

/// The flag that a character of the castling field stands for; `-` stands
/// for none.
pub open spec fn castling_flag(c: char) -> Option<u8> {
    if c == 'K' {
        Some(CastlePerm::WhiteKing.mask())
    } else if c == 'Q' {
        Some(CastlePerm::WhiteQueen.mask())
    } else if c == 'k' {
        Some(CastlePerm::BlackKing.mask())
    } else if c == 'q' {
        Some(CastlePerm::BlackQueen.mask())
    } else if c == '-' {
        Some(CastlePerm::NoRights.mask())
    } else {
        None
    }
}

/// The castling set that `s` writes: the union of the flags of its
/// characters, in any order and number.
pub open spec fn castling_of(s: Seq<char>) -> Option<u8>
    decreases s.len(),
{
    if s.len() == 0 {
        Some(0)
    } else {
        match (castling_of(s.drop_last()), castling_flag(s.last())) {
            (Some(set), Some(flag)) => Some(set | flag),
            _ => None,
        }
    }
}

/// The en passant target that `s` writes: `-` for none, else a square's
/// name.
pub open spec fn en_passant_of(s: Seq<char>) -> Option<Option<Square>> {
    if s == seq!['-'] {
        Some(None)
    } else {
        match Square::from_name(s) {
            Some(sq) => Some(Some(sq)),
            None => None,
        }
    }
}

/// The position that the text `t` describes, if it describes one: six
/// fields with one space between each two. The second field says that
/// White is to move when it is `w`, and that Black is when it is anything
/// else. The last two fields are the counters, each a decimal number that
/// 64 bits hold.
pub open spec fn decode(t: Seq<char>) -> Option<Position> {
    let f = split(t, ' ');
    if f.len() != 6 {
        None
    } else {
        match (
            placement_of(f[0]),
            castling_of(f[2]),
            en_passant_of(f[3]),
            parse_u64(f[4]),
            parse_u64(f[5]),
        ) {
            (Some(squares), Some(castling), Some(en_passant), Some(halfmove), Some(fullmove)) => Some(
                Position {
                    white_to_move: f[1] == seq!['w'],
                    halfmove,
                    fullmove,
                    castling,
                    en_passant,
                    squares,
                },
            ),
            _ => None,
        }
    }
}

/// `out`, followed by the digit for a run of `empty` squares if there is
/// such a run.
pub open spec fn flush(out: Seq<char>, empty: int) -> Seq<char> {
    if empty > 0 {
        out.push(digit(empty))
    } else {
        out
    }
}

/// The text for the files below `n` of rank `r`, and the length of the run
/// of empty squares that ends there and is not yet written.
pub open spec fn rank_run(squares: Seq<Option<ColoredPiece>>, r: int, n: int) -> (Seq<char>, int)
    decreases n,
{
    if n <= 0 {
        (Seq::<char>::empty(), 0)
    } else {
        let (out, empty) = rank_run(squares, r, n - 1);
        match squares[r * 8 + n - 1] {
            None => (out, empty + 1),
            Some(p) => (flush(out, empty).push(p.glyph()), 0),
        }
    }
}

/// The text of rank `r`: a letter for each piece and a digit for each run
/// of empty squares.
pub open spec fn rank_text(squares: Seq<Option<ColoredPiece>>, r: int) -> Seq<char> {
    let (out, empty) = rank_run(squares, r, 8);
    flush(out, empty)
}

/// The text of the `n` highest ranks, from the eighth down, with `/` after
/// each but the first rank.
pub open spec fn ranks_text(squares: Seq<Option<ColoredPiece>>, n: int) -> Seq<char>
    decreases n,
{
    if n <= 0 {
        Seq::<char>::empty()
    } else {
        ranks_text(squares, n - 1) + rank_text(squares, 8 - n) + (if n < 8 {
            seq!['/']
        } else {
            Seq::<char>::empty()
        })
    }
}

/// The character for a flag of `castling`, if the flag is in the set.
pub open spec fn flag_text(castling: u8, perm: CastlePerm, c: char) -> Seq<char> {
    if castling & perm.mask() != 0 {
        seq![c]
    } else {
        Seq::<char>::empty()
    }
}

/// The castling field: `-` for the empty set, else the flags in the order
/// `KQkq`.
pub open spec fn castling_text(castling: u8) -> Seq<char> {
    if castling == 0 {
        seq!['-']
    } else {
        flag_text(castling, CastlePerm::WhiteKing, 'K') + flag_text(
            castling,
            CastlePerm::WhiteQueen,
            'Q',
        ) + flag_text(castling, CastlePerm::BlackKing, 'k') + flag_text(
            castling,
            CastlePerm::BlackQueen,
            'q',
        )
    }
}

/// The en passant field: `-` for none, else the square's name.
pub open spec fn en_passant_text(en_passant: Option<Square>) -> Seq<char> {
    match en_passant {
        None => seq!['-'],
        Some(sq) => sq.name(),
    }
}

/// The text of a position: placement, side to move, castling, en passant
/// target and the two counters, with one space between each two.
pub open spec fn encode(p: Position) -> Seq<char> {
    ranks_text(p.squares, 8) + seq![' '] + seq![
        if p.white_to_move {
            'w'
        } else {
            'b'
        },
    ] + seq![' '] + castling_text(p.castling) + seq![' '] + en_passant_text(p.en_passant) + seq![
        ' ',
    ] + decimal(p.halfmove as nat) + seq![' '] + decimal(p.fullmove as nat)
}

/// Whether the entry `e` of the table holds a piece of side `c`.
pub open spec fn on_side(e: Option<ColoredPiece>, c: Color) -> bool {
    match e {
        Some(p) => p.side() == c,
        None => false,
    }
}

/// Whether the bitboards say what the table says: a square is in the
/// bitboard of a piece exactly when the table has that piece there, and in
/// the bitboard of a side exactly when the table has a piece of that side
/// there; no square is in the bitboards of both sides.
pub open spec fn agree(
    squares: Seq<Option<ColoredPiece>>,
    white: u64,
    black: u64,
    pieces: Seq<u64>,
) -> bool {
    &&& squares.len() == 64
    &&& pieces.len() == 12
    &&& forall|s: u64, p: ColoredPiece|
        s < 64 ==> (#[trigger] is_set(pieces[p.index()], s) <==> squares[s as int] == Some(p))
    &&& forall|s: u64|
        s < 64 ==> (#[trigger] is_set(white, s) <==> on_side(squares[s as int], Color::White))
    &&& forall|s: u64|
        s < 64 ==> (#[trigger] is_set(black, s) <==> on_side(squares[s as int], Color::Black))
    &&& white & black == 0
}

/// Whether the reader at `rank` and `file` has passed square `s`.
pub open spec fn passed(s: int, rank: int, file: int) -> bool {
    s / 8 > rank || (s / 8 == rank && s % 8 < file)
}

/// Two disjoint bitboards stay disjoint when one of them gains a square
/// that the other does not hold.
proof fn lemma_disjoint_after_set(a: u64, b: u64, i: u64)
    by (bit_vector)
    requires
        a & b == 0,
        i < 64,
    ensures
        (b >> i) & 1 != 1 ==> (a | (1u64 << i)) & b == 0,
        (a >> i) & 1 != 1 ==> a & (b | (1u64 << i)) == 0,
{
}

/// The empty bitboard has no member.
proof fn lemma_empty_bitboard(i: u64)
    by (bit_vector)
    ensures
        (0u64 >> i) & 1 != 1,
        0u64 & 0u64 == 0,
{
}

/// The union of two sets of the four castling flags is such a set.
pub proof fn lemma_flag_union(a: u8, b: u8)
    by (bit_vector)
    requires
        a < 16,
        b < 16,
    ensures
        a | b < 16,
{
}

/// What a placement yields: the table and the bitboards that go with it.
struct Placed {
    white: u64,
    black: u64,
    pie: [u64; ColoredPiece::COUNT],
    sqr: [Option<ColoredPiece>; Square::COUNT],
}

/// Reads the placement field.
fn read_placement(field: &Vec<char>) -> (r: Option<Placed>)
    ensures
        match r {
            Some(got) => placement_of(field@) == Some(got.sqr@) && agree(
                got.sqr@,
                got.white,
                got.black,
                got.pie@,
            ),
            None => placement_of(field@) is None,
        },
{
    let mut rank: u8 = 7;
    let mut file: u8 = 0;
    let mut white: u64 = 0;
    let mut black: u64 = 0;
    let mut pie: [u64; ColoredPiece::COUNT] = [0; ColoredPiece::COUNT];
    let mut sqr: [Option<ColoredPiece>; Square::COUNT] = [None; Square::COUNT];
    let mut i: usize = 0;
    proof {
        assert(field@.take(0) =~= Seq::<char>::empty());
        assert(sqr@ =~= no_pieces());
        assert forall|s: u64| s < 64 implies !is_set(0, s) by {
            lemma_empty_bitboard(s);
        }
        lemma_empty_bitboard(0);
    }
    while i < field.len()
        invariant
            i <= field.len(),
            rank <= 7,
            file <= 8,
            run(origin(), field@.take(i as int)) == Some(
                Cursor { rank: rank as int, file: file as int, squares: sqr@ },
            ),
            agree(sqr@, white, black, pie@),
            forall|s: int|
                0 <= s < 64 && !passed(s, rank as int, file as int) ==> (#[trigger] sqr@[s]) is None,
        decreases field.len() - i,
    {
        let c = field[i];
        let ghost before = Cursor { rank: rank as int, file: file as int, squares: sqr@ };
        proof {
            assert(field@.take(i + 1).drop_last() =~= field@.take(i as int));
            assert(field@.take(i + 1).last() == c);
            assert(run(origin(), field@.take(i + 1)) == advance(before, c));
        }
        if c == '/' {
            if rank == 0 {
                proof {
                    lemma_run_stays_none(origin(), field@, i + 1);
                }
                return None;
            }
            rank -= 1;
            file = 0;
        } else if '1' <= c && c <= '8' {
            let n = c as u8 - 48;
            if file + n > 8 {
                proof {
                    lemma_run_stays_none(origin(), field@, i + 1);
                }
                return None;
            }
            file += n;
        } else {
            match ColoredPiece::from_char(c) {
                Some(p) => {
                    if file >= 8 {
                        proof {
                            lemma_run_stays_none(origin(), field@, i + 1);
                        }
                        return None;
                    }
                    let sq: u8 = rank * 8 + file;
                    let which = p.to_u8() as usize;
                    proof {
                        assert(sq as int / 8 == rank && sq as int % 8 == file);
                        assert(!passed(sq as int, rank as int, file as int));
                        assert(sqr@[sq as int] is None);
                        assert(!is_set(white, sq as u64));
                        assert(!is_set(black, sq as u64));
                    }
                    let ghost old_sqr = sqr@;
                    let ghost old_pie = pie@;
                    let mut bb = pie[which];
                    bit::set(&mut bb, sq);
                    pie[which] = bb;
                    match p.color() {
                        Color::White => {
                            proof {
                                lemma_disjoint_after_set(white, black, sq as u64);
                            }
                            bit::set(&mut white, sq);
                        },
                        _ => {
                            proof {
                                lemma_disjoint_after_set(white, black, sq as u64);
                            }
                            bit::set(&mut black, sq);
                        },
                    }
                    sqr[sq as usize] = Some(p);
                    file += 1;
                    proof {
                        assert(sqr@ =~= old_sqr.update(sq as int, Some(p)));
                        assert forall|s: int|
                            0 <= s < 64 && !passed(s, rank as int, file as int) implies (
                        #[trigger] sqr@[s]) is None by {
                            assert(!passed(s, rank as int, file as int - 1));
                            assert(s != sq);
                            assert(old_sqr[s] is None);
                        }
                        assert forall|s: u64, q: ColoredPiece| s < 64 implies (#[trigger] is_set(
                            pie@[q.index()],
                            s,
                        ) <==> sqr@[s as int] == Some(q)) by {
                            assert(is_set(old_pie[q.index()], s) <==> old_sqr[s as int] == Some(q));
                            if q.index() == p.index() {
                                assert(ColoredPiece::at(q.index()) == q);
                                assert(ColoredPiece::at(p.index()) == p);
                            }
                        }
                    }
                },
                None => {
                    proof {
                        lemma_run_stays_none(origin(), field@, i + 1);
                    }
                    return None;
                },
            }
        }
        i += 1;
    }
    proof {
        assert(field@.take(i as int) =~= field@);
    }
    Some(Placed { white, black, pie, sqr })
}

/// Once the reader has refused a character, it refuses the whole text.
proof fn lemma_run_stays_none(cur: Cursor, s: Seq<char>, k: int)
    requires
        0 <= k <= s.len(),
        run(cur, s.take(k)) is None,
    ensures
        run(cur, s) is None,
    decreases s.len() - k,
{
    if k < s.len() {
        assert(s.take(k + 1).drop_last() =~= s.take(k));
        lemma_run_stays_none(cur, s, k + 1);
    } else {
        assert(s.take(k) =~= s);
    }
}

/// Reads the castling field.
fn read_castling(field: &Vec<char>) -> (r: Option<u8>)
    ensures
        r == castling_of(field@),
        r matches Some(set) ==> set < 16,
{
    let mut cas: u8 = 0;
    let mut i: usize = 0;
    proof {
        assert(field@.take(0) =~= Seq::<char>::empty());
    }
    while i < field.len()
        invariant
            i <= field.len(),
            castling_of(field@.take(i as int)) == Some(cas),
            cas < 16,
        decreases field.len() - i,
    {
        let c = field[i];
        proof {
            assert(field@.take(i + 1).drop_last() =~= field@.take(i as int));
            assert(field@.take(i + 1).last() == c);
        }
        let flag = match c {
            'K' => CastlePerm::WhiteKing.bits(),
            'Q' => CastlePerm::WhiteQueen.bits(),
            'k' => CastlePerm::BlackKing.bits(),
            'q' => CastlePerm::BlackQueen.bits(),
            '-' => CastlePerm::NoRights.bits(),
            _ => {
                proof {
                    lemma_castling_stays_none(field@, i + 1);
                }
                return None;
            },
        };
        proof {
            lemma_flag_union(cas, flag);
        }
        cas |= flag;
        i += 1;
    }
    proof {
        assert(field@.take(i as int) =~= field@);
    }
    Some(cas)
}

/// Once a character of the castling field is refused, the field is.
proof fn lemma_castling_stays_none(s: Seq<char>, k: int)
    requires
        0 <= k <= s.len(),
        castling_of(s.take(k)) is None,
    ensures
        castling_of(s) is None,
    decreases s.len() - k,
{
    if k < s.len() {
        assert(s.take(k + 1).drop_last() =~= s.take(k));
        lemma_castling_stays_none(s, k + 1);
    } else {
        assert(s.take(k) =~= s);
    }
}

/// Reads the en passant field.
fn read_en_passant(field: &Vec<char>) -> (r: Option<Option<Square>>)
    ensures
        r == en_passant_of(field@),
{
    if field.len() == 1 && field[0] == '-' {
        proof {
            assert(field@ =~= seq!['-']);
        }
        Some(None)
    } else {
        proof {
            assert(field@ != seq!['-']) by {
                if field@ == seq!['-'] {
                    assert(seq!['-'].len() == 1);
                    assert(seq!['-'][0] == '-');
                }
            }
        }
        match Square::from_chars(field) {
            Some(sq) => Some(Some(sq)),
            None => None,
        }
    }
}

/// Appends the text of rank `rank`.
fn push_rank(fen: &mut String, sqr: &[Option<ColoredPiece>; Square::COUNT], rank: u8)
    requires
        rank <= 7,
    ensures
        final(fen)@ == old(fen)@ + rank_text(sqr@, rank as int),
{
    let ghost above = fen@;
    let mut empty: u8 = 0;
    let mut file: u8 = 0;
    proof {
        assert(fen@ =~= above + rank_run(sqr@, rank as int, 0).0);
    }
    while file < 8
        invariant
            file <= 8,
            rank <= 7,
            0 <= empty <= file,
            fen@ == above + rank_run(sqr@, rank as int, file as int).0,
            empty == rank_run(sqr@, rank as int, file as int).1,
        decreases 8 - file,
    {
        let ghost so_far = rank_run(sqr@, rank as int, file as int);
        let sq: usize = (rank * 8 + file) as usize;
        match sqr[sq] {
            None => {
                empty += 1;
            },
            Some(p) => {
                if empty > 0 {
                    fen.push(digit_of(empty));
                    empty = 0;
                }
                fen.push(p.to_char());
            },
        }
        file += 1;
        proof {
            let next = rank_run(sqr@, rank as int, file as int);
            assert(rank_run(sqr@, rank as int, file as int - 1) == so_far);
            assert(sqr@[rank as int * 8 + file as int - 1] == sqr@[sq as int]);
            assert(fen@ =~= above + next.0);
        }
    }
    if empty > 0 {
        fen.push(digit_of(empty));
    }
    proof {
        assert(fen@ =~= above + rank_text(sqr@, rank as int));
    }
}

/// Appends the castling field.
fn push_castling(fen: &mut String, cas: u8)
    ensures
        final(fen)@ == old(fen)@ + castling_text(cas),
{
    let ghost before = fen@;
    match cas {
        0 => {
            fen.push('-');
        },
        c => {
            if c & CastlePerm::WhiteKing.bits() != 0 {
                fen.push('K');
            }
            if c & CastlePerm::WhiteQueen.bits() != 0 {
                fen.push('Q');
            }
            if c & CastlePerm::BlackKing.bits() != 0 {
                fen.push('k');
            }
            if c & CastlePerm::BlackQueen.bits() != 0 {
                fen.push('q');
            }
        },
    }
    proof {
        assert(fen@ =~= before + castling_text(cas));
    }
}

/// One state of the game: who is to move, the counters, the castling
/// permissions, the en passant target, and where the pieces stand, as a
/// table by square and as bitboards by side and by piece.
#[derive(Debug, Clone, Copy, PartialEq, Eq)]
pub struct Board {
    /// Whether it's white's turn to move.
    w: bool,
    /// The number of half moves since the last capture or pawn move.
    hmc: u64,
    /// The number of full moves.
    fmc: u64,
    /// The castling permissions.
    cas: u8,
    /// The en passant target square.
    enp: Option<Square>,
    /// The occupancy bitboards, by side.
    occ: [u64; Color::COUNT],
    /// The piece bitboards, by piece.
    pie: [u64; ColoredPiece::COUNT],
    /// The piece-square table.
    sqr: [Option<ColoredPiece>; Square::COUNT],
}

impl View for Board {
    type V = Position;

    /// What this board holds.
    closed spec fn view(&self) -> Position {
        Position {
            white_to_move: self.w,
            halfmove: self.hmc,
            fullmove: self.fmc,
            castling: self.cas,
            en_passant: self.enp,
            squares: self.sqr@,
        }
    }
}

impl Board {
    /// The occupancy bitboard of a side; that of `Both` is the union.
    pub closed spec fn occupancy_of(self, c: Color) -> u64 {
        self.occ@[c.index()]
    }

    /// The bitboard of a piece.
    pub closed spec fn pieces_of(self, p: ColoredPiece) -> u64 {
        self.pie@[p.index()]
    }

    /// What holds of every board: the occupancy of `Both` is the union of
    /// the two sides, which share no square; a square is in the bitboard
    /// of a piece exactly when the table has that piece there, so that the
    /// piece bitboards part the occupied squares among them; and a square
    /// is in the occupancy of a side exactly when the table has a piece of
    /// that side there, so that each piece bitboard lies within the
    /// occupancy of its side.
    #[verifier::type_invariant]
    pub open spec fn well_formed(self) -> bool {
        &&& self@.well_formed()
        &&& self.occupancy_of(Color::Both) == self.occupancy_of(Color::White) | self.occupancy_of(
            Color::Black,
        )
        &&& self.occupancy_of(Color::White) & self.occupancy_of(Color::Black) == 0
        &&& forall|s: u64, p: ColoredPiece|
            s < 64 ==> (#[trigger] is_set(self.pieces_of(p), s) <==> self@.squares[s as int]
                == Some(p))
        &&& forall|s: u64|
            s < 64 ==> (#[trigger] is_set(self.occupancy_of(Color::White), s) <==> on_side(
                self@.squares[s as int],
                Color::White,
            ))
        &&& forall|s: u64|
            s < 64 ==> (#[trigger] is_set(self.occupancy_of(Color::Black), s) <==> on_side(
                self@.squares[s as int],
                Color::Black,
            ))
    }

    /// Reads a position from its text. The text has six fields with one
    /// space between each two: the placement, the side to move, the
    /// castling permissions, the en passant target, and the two counters,
    /// each a decimal number that 64 bits hold. A text that `decode`
    /// refuses yields no board.
    pub fn from_fen(fen: &str) -> (r: Option<Self>)
        ensures
            match r {
                Some(b) => decode(fen@) == Some(b@) && b.well_formed(),
                None => decode(fen@) is None,
            },
    {
        let text = chars_of(fen);
        let fields = split_at_each(&text, ' ');
        if fields.len() != 6 {
            return None;
        }
        let hmc = match read_u64(&fields[4]) {
            Some(n) => n,
            None => {
                return None;
            },
        };
        let fmc = match read_u64(&fields[5]) {
            Some(n) => n,
            None => {
                return None;
            },
        };
        let enp = match read_en_passant(&fields[3]) {
            Some(target) => target,
            None => {
                return None;
            },
        };
        let placed = match read_placement(&fields[0]) {
            Some(placed) => placed,
            None => {
                return None;
            },
        };
        let cas = match read_castling(&fields[2]) {
            Some(set) => set,
            None => {
                return None;
            },
        };
        let w = fields[1].len() == 1 && fields[1][0] == 'w';
        proof {
            let side = split(fen@, ' ')[1];
            if w {
                assert(side =~= seq!['w']);
            } else if side == seq!['w'] {
                assert(seq!['w'].len() == 1);
                assert(seq!['w'][0] == 'w');
            }
        }
        let occ: [u64; Color::COUNT] = [placed.white, placed.black, placed.white | placed.black];
        Some(Board { w, hmc, fmc, cas, enp, occ, pie: placed.pie, sqr: placed.sqr })
    }

    /// Writes the position as text: the placement from the eighth rank
    /// down, each run of empty squares as one digit; the side to move; the
    /// castling permissions in the order `KQkq`, or `-`; the en passant
    /// target, or `-`; and the two counters in decimal. The text reads
    /// back as this position.
    pub fn to_fen(&self) -> (fen: String)
        ensures
            fen@ == encode(self@),
            decode(fen@) == Some(self@),
    {
        proof {
            use_type_invariant(self);
            lemma_decode_encode(self@);
        }
        let mut fen = String::new();
        let mut done: u8 = 0;
        while done < 8
            invariant
                done <= 8,
                fen@ == ranks_text(self.sqr@, done as int),
            decreases 8 - done,
        {
            let ghost above = fen@;
            let rank: u8 = 7 - done;
            push_rank(&mut fen, &self.sqr, rank);
            if rank > 0 {
                fen.push('/');
            }
            done += 1;
            proof {
                assert(fen@ =~= ranks_text(self.sqr@, done as int));
            }
        }
        let ghost placement = fen@;
        fen.push(' ');
        fen.push(
            match self.w {
                true => 'w',
                false => 'b',
            },
        );
        fen.push(' ');
        push_castling(&mut fen, self.cas);
        fen.push(' ');
        let ghost before_target = fen@;
        match self.enp {
            None => {
                fen.push('-');
            },
            Some(sq) => {
                fen.append(sq.to_str());
            },
        }
        proof {
            assert(fen@ =~= before_target + en_passant_text(self.enp));
        }
        fen.push(' ');
        push_decimal(&mut fen, self.hmc);
        fen.push(' ');
        push_decimal(&mut fen, self.fmc);
        proof {
            assert(fen@ =~= encode(self@));
        }
        fen
    }

    /// Whether it is White's turn to move.
    pub fn white_to_move(&self) -> (w: bool)
        ensures
            w == self@.white_to_move,
    {
        self.w
    }

    /// The number of half moves since the last capture or pawn move.
    pub fn halfmove_clock(&self) -> (n: u64)
        ensures
            n == self@.halfmove,
    {
        self.hmc
    }

    /// The number of the full move.
    pub fn fullmove_number(&self) -> (n: u64)
        ensures
            n == self@.fullmove,
    {
        self.fmc
    }

    /// The castling permissions, as the union of their flag bits.
    pub fn castling(&self) -> (set: u8)
        ensures
            set == self@.castling,
            set < 16,
    {
        proof {
            use_type_invariant(self);
        }
        self.cas
    }

    /// The en passant target square.
    pub fn en_passant(&self) -> (target: Option<Square>)
        ensures
            target == self@.en_passant,
    {
        self.enp
    }

    /// The occupancy bitboard of a side.
    pub fn occupancy(&self, c: Color) -> (bb: u64)
        ensures
            bb == self.occupancy_of(c),
    {
        self.occ[c.to_u8() as usize]
    }

    /// The bitboard of a piece.
    pub fn pieces(&self, p: ColoredPiece) -> (bb: u64)
        ensures
            bb == self.pieces_of(p),
    {
        self.pie[p.to_u8() as usize]
    }

    /// The piece on a square.
    pub fn piece_at(&self, sq: Square) -> (e: Option<ColoredPiece>)
        ensures
            e == self@.squares[sq.index()],
    {
        self.sqr[sq.to_u8() as usize]
    }
}

/// What is asked of every position, in the words of its bitboards: the
/// occupancy of both sides is the union of the two; no square is occupied
/// by both; the table has a piece on a square exactly when some piece
/// bitboard holds the square, and no two of them hold the same square; and
/// a square that a piece bitboard holds is in the occupancy of the side of
/// that piece.
pub proof fn lemma_board_invariants(b: Board)
    requires
        b.well_formed(),
    ensures
        b.occupancy_of(Color::Both) == b.occupancy_of(Color::White) | b.occupancy_of(Color::Black),
        b.occupancy_of(Color::White) & b.occupancy_of(Color::Black) == 0,
        forall|s: u64|
            s < 64 ==> (b@.squares[s as int] is Some <==> exists|p: ColoredPiece| #[trigger]
                is_set(b.pieces_of(p), s)),
        forall|s: u64, p: ColoredPiece, q: ColoredPiece|
            s < 64 && #[trigger] is_set(b.pieces_of(p), s) && #[trigger] is_set(b.pieces_of(q), s)
                ==> p == q,
        forall|s: u64, p: ColoredPiece|
            s < 64 && #[trigger] is_set(b.pieces_of(p), s) ==> is_set(
                b.occupancy_of(p.side()),
                s,
            ),
{
    assert forall|s: u64| s < 64 implies (b@.squares[s as int] is Some <==> exists|
        p: ColoredPiece,
    | #[trigger] is_set(b.pieces_of(p), s)) by {
        match b@.squares[s as int] {
            Some(p) => {
                assert(is_set(b.pieces_of(p), s));
            },
            None => {},
        }
    }
    assert forall|s: u64, p: ColoredPiece| s < 64 && #[trigger] is_set(
        b.pieces_of(p),
        s,
    ) implies is_set(b.occupancy_of(p.side()), s) by {
        assert(b@.squares[s as int] == Some(p));
        if p.side() == Color::White {
            assert(is_set(b.occupancy_of(Color::White), s));
        } else {
            assert(p.side() == Color::Black);
            assert(is_set(b.occupancy_of(Color::Black), s));
        }
    }
}

/// A board is what it holds: two well-formed boards that hold the same
/// are the same in every bitboard too.
pub proof fn lemma_board_determined(a: Board, b: Board)
    requires
        a.well_formed(),
        b.well_formed(),
        a@ == b@,
    ensures
        a == b,
{
    assert(a.sqr@ == b.sqr@);
    assert(a.sqr =~= b.sqr);
    assert forall|k: int| 0 <= k < 12 implies #[trigger] a.pie@[k] == b.pie@[k] by {
        let p = ColoredPiece::at(k);
        assert(p.index() == k);
        assert forall|j: u64| j < 64 implies (#[trigger] is_set(a.pie@[k], j) <==> is_set(
            b.pie@[k],
            j,
        )) by {
            assert(is_set(a.pieces_of(p), j) <==> a@.squares[j as int] == Some(p));
            assert(is_set(b.pieces_of(p), j) <==> b@.squares[j as int] == Some(p));
        }
        bit::lemma_same_members(a.pie@[k], b.pie@[k]);
    }
    assert(a.pie =~= b.pie);
    assert forall|k: int| 0 <= k < 3 implies #[trigger] a.occ@[k] == b.occ@[k] by {
        let white_a = a.occupancy_of(Color::White);
        let white_b = b.occupancy_of(Color::White);
        let black_a = a.occupancy_of(Color::Black);
        let black_b = b.occupancy_of(Color::Black);
        assert forall|j: u64| j < 64 implies (#[trigger] is_set(white_a, j) <==> is_set(
            white_b,
            j,
        )) by {
            assert(is_set(white_a, j) <==> on_side(a@.squares[j as int], Color::White));
            assert(is_set(white_b, j) <==> on_side(b@.squares[j as int], Color::White));
        }
        assert forall|j: u64| j < 64 implies (#[trigger] is_set(black_a, j) <==> is_set(
            black_b,
            j,
        )) by {
            assert(is_set(black_a, j) <==> on_side(a@.squares[j as int], Color::Black));
            assert(is_set(black_b, j) <==> on_side(b@.squares[j as int], Color::Black));
        }
        bit::lemma_same_members(white_a, white_b);
        bit::lemma_same_members(black_a, black_b);
        assert(a.occupancy_of(Color::Both) == b.occupancy_of(Color::Both));
    }
    assert(a.occ =~= b.occ);
}

} // verus!
