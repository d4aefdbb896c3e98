//! The text of a position reads back as that position.

use crate::board::{
    advance, castling_flag, castling_of, castling_text, decode, en_passant_of, en_passant_text,
    encode, flag_text, flush, is_skip, lemma_flag_union, no_pieces, origin, passed, placement_of,
    rank_run, rank_text, ranks_text, run, Cursor, Position,
};
use crate::text::{
    decimal, digit, lemma_decimal, lemma_parse_decimal, lemma_split_join, lemma_split_one, occurs,
    split,
};
use crate::{lemma_square_name_round_trip, CastlePerm, ColoredPiece, Square};
use vstd::prelude::*;

verus! {

/// The table as far as a reader at `rank` and `file` has filled it from
/// `squares`: the squares passed as in `squares`, the others empty.
pub open spec fn filled(squares: Seq<Option<ColoredPiece>>, rank: int, file: int) -> Seq<
    Option<ColoredPiece>,
> {
    Seq::new(
        64,
        |i: int|
            if passed(i, rank, file) {
                squares[i]
            } else {
                None
            },
    )
}

/// Reading one more character is one more step.
proof fn lemma_run_push(cur: Cursor, s: Seq<char>, c: char)
    ensures
        run(cur, s.push(c)) == match run(cur, s) {
            Some(mid) => advance(mid, c),
            None => None,
        },
{
    assert(s.push(c).drop_last() =~= s);
}

/// Reading two texts in a row is reading the second from where the first
/// ends.
proof fn lemma_run_concat(cur: Cursor, a: Seq<char>, b: Seq<char>)
    ensures
        run(cur, a + b) == match run(cur, a) {
            Some(mid) => run(mid, b),
            None => None,
        },
    decreases b.len(),
{
    if b.len() == 0 {
        assert(a + b =~= a);
    } else {
        lemma_run_concat(cur, a, b.drop_last());
        assert((a + b).drop_last() =~= a + b.drop_last());
        assert((a + b).last() == b.last());
    }
}

/// Whether a reader stands on the board, with a table of 64 entries.
pub open spec fn on_board(cur: Cursor) -> bool {
    &&& 0 <= cur.rank <= 7
    &&& 0 <= cur.file <= 8
    &&& cur.squares.len() == 64
}

/// The reader stays on the board.
proof fn lemma_run_stays_on_board(cur: Cursor, s: Seq<char>)
    requires
        on_board(cur),
    ensures
        run(cur, s) matches Some(end) ==> on_board(end),
    decreases s.len(),
{
    if s.len() > 0 {
        lemma_run_stays_on_board(cur, s.drop_last());
    }
}

/// A castling field writes a set of the four flags.
proof fn lemma_castling_bound(s: Seq<char>)
    ensures
        castling_of(s) matches Some(set) ==> set < 16,
    decreases s.len(),
{
    if s.len() > 0 {
        lemma_castling_bound(s.drop_last());
        match (castling_of(s.drop_last()), castling_flag(s.last())) {
            (Some(set), Some(flag)) => {
                lemma_flag_union(set, flag);
            },
            _ => {},
        }
    }
}

/// Every position that a text describes is well formed.
pub proof fn lemma_decode_well_formed(t: Seq<char>)
    ensures
        decode(t) matches Some(p) ==> p.well_formed(),
{
    let f = split(t, ' ');
    if f.len() == 6 {
        lemma_run_stays_on_board(origin(), f[0]);
        lemma_castling_bound(f[2]);
    }
}

/// The letter of a piece is read as that piece, and as nothing else.
proof fn lemma_glyph(p: ColoredPiece)
    ensures
        p.glyph() != '/',
        p.glyph() != ' ',
        !is_skip(p.glyph()),
        ColoredPiece::from_glyph(p.glyph()) == Some(p),
{
}

/// A run of empty squares changes nothing in what the reader has filled.
proof fn lemma_filled_over_empty(squares: Seq<Option<ColoredPiece>>, r: int, lo: int, hi: int)
    requires
        squares.len() == 64,
        0 <= r <= 7,
        0 <= lo <= hi <= 8,
        forall|j: int| lo <= j < hi ==> (#[trigger] squares[r * 8 + j]) is None,
    ensures
        filled(squares, r, lo) == filled(squares, r, hi),
{
    let a = filled(squares, r, lo);
    let b = filled(squares, r, hi);
    assert forall|i: int| 0 <= i < 64 implies #[trigger] a[i] == b[i] by {
        if passed(i, r, hi) && !passed(i, r, lo) {
            let j = i % 8;
            assert(i == r * 8 + j);
            assert(squares[r * 8 + j] is None);
        }
    }
    assert(a =~= b);
}

/// Putting the piece of the next square there fills one square more.
proof fn lemma_filled_put(squares: Seq<Option<ColoredPiece>>, r: int, n: int)
    requires
        squares.len() == 64,
        0 <= r <= 7,
        0 <= n < 8,
    ensures
        filled(squares, r, n).update(r * 8 + n, squares[r * 8 + n]) == filled(squares, r, n + 1),
{
    let a = filled(squares, r, n).update(r * 8 + n, squares[r * 8 + n]);
    let b = filled(squares, r, n + 1);
    assert forall|i: int| 0 <= i < 64 implies #[trigger] a[i] == b[i] by {
        if i == r * 8 + n {
            assert(passed(i, r, n + 1));
        } else {
            assert(passed(i, r, n + 1) == passed(i, r, n));
        }
    }
    assert(a =~= b);
}

/// The end of a rank is the beginning of the rank below, and the beginning
/// of the eighth rank is the empty board.
proof fn lemma_filled_ends(squares: Seq<Option<ColoredPiece>>, r: int)
    requires
        squares.len() == 64,
        0 <= r <= 7,
    ensures
        r > 0 ==> filled(squares, r, 8) == filled(squares, r - 1, 0),
        filled(squares, 7, 0) == no_pieces(),
        filled(squares, 0, 8) == squares,
{
    let a = filled(squares, r, 8);
    let b = filled(squares, r - 1, 0);
    assert forall|i: int| 0 <= i < 64 implies #[trigger] a[i] == b[i] by {
        assert(passed(i, r, 8) == passed(i, r - 1, 0));
    }
    if r > 0 {
        assert(a =~= b);
    }
    assert(filled(squares, 7, 0) =~= no_pieces());
    assert(filled(squares, 0, 8) =~= squares);
}

/// What the reader has after the text for the files below `n` of rank `r`,
/// before the run of empty squares that ends there is written.
proof fn lemma_rank_run(squares: Seq<Option<ColoredPiece>>, r: int, n: int)
    requires
        squares.len() == 64,
        0 <= r <= 7,
        0 <= n <= 8,
    ensures
        ({
            let (out, empty) = rank_run(squares, r, n);
            &&& 0 <= empty <= n
            &&& forall|j: int| n - empty <= j < n ==> (#[trigger] squares[r * 8 + j]) is None
            &&& run(Cursor { rank: r, file: 0, squares: filled(squares, r, 0) }, out) == Some(
                Cursor { rank: r, file: n - empty, squares: filled(squares, r, n - empty) },
            )
            &&& !occurs(out, ' ')
        }),
    decreases n,
{
    let start = Cursor { rank: r, file: 0, squares: filled(squares, r, 0) };
    if n > 0 {
        lemma_rank_run(squares, r, n - 1);
        let (out, empty) = rank_run(squares, r, n - 1);
        let before = Cursor {
            rank: r,
            file: n - 1 - empty,
            squares: filled(squares, r, n - 1 - empty),
        };
        match squares[r * 8 + n - 1] {
            None => {
                assert forall|j: int| n - (empty + 1) <= j < n implies (#[trigger] squares[r * 8
                    + j]) is None by {
                    if j == n - 1 {
                        assert(squares[r * 8 + j] == squares[r * 8 + n - 1]);
                    }
                }
            },
            Some(p) => {
                lemma_glyph(p);
                let at = Cursor { rank: r, file: n - 1, squares: filled(squares, r, n - 1) };
                lemma_filled_over_empty(squares, r, n - 1 - empty, n - 1);
                let flushed = flush(out, empty);
                assert(run(start, flushed) == Some(at)) by {
                    if empty > 0 {
                        lemma_run_push(start, out, digit(empty));
                        assert(is_skip(digit(empty)));
                        assert(digit(empty) != '/');
                        assert(digit(empty) as int - '0' as int == empty);
                    }
                }
                lemma_run_push(start, flushed, p.glyph());
                lemma_filled_put(squares, r, n - 1);
                let next = flushed.push(p.glyph());
                assert forall|i: int| 0 <= i < next.len() implies next[i] != ' ' by {
                    if i < out.len() {
                        assert(next[i] == out[i]);
                    } else if i < flushed.len() {
                        assert(next[i] == digit(empty));
                    }
                }
            },
        }
    } else {
        assert(rank_run(squares, r, n).0 =~= Seq::<char>::empty());
    }
}

/// The text of a rank takes the reader from the a-file of that rank to its
/// end, with the rank filled in.
proof fn lemma_rank_text(squares: Seq<Option<ColoredPiece>>, r: int)
    requires
        squares.len() == 64,
        0 <= r <= 7,
    ensures
        run(Cursor { rank: r, file: 0, squares: filled(squares, r, 0) }, rank_text(squares, r))
            == Some(Cursor { rank: r, file: 8, squares: filled(squares, r, 8) }),
        !occurs(rank_text(squares, r), ' '),
{
    let start = Cursor { rank: r, file: 0, squares: filled(squares, r, 0) };
    lemma_rank_run(squares, r, 8);
    let (out, empty) = rank_run(squares, r, 8);
    lemma_filled_over_empty(squares, r, 8 - empty, 8);
    if empty > 0 {
        lemma_run_push(start, out, digit(empty));
        assert(is_skip(digit(empty)));
        assert(digit(empty) != '/');
        assert(digit(empty) as int - '0' as int == empty);
        let text = out.push(digit(empty));
        assert forall|i: int| 0 <= i < text.len() implies text[i] != ' ' by {
            if i < out.len() {
                assert(text[i] == out[i]);
            }
        }
    }
}

/// Where the reader stands after the text of the `n` highest ranks.
pub open spec fn after_ranks(squares: Seq<Option<ColoredPiece>>, n: int) -> Cursor {
    if n < 8 {
        Cursor { rank: 7 - n, file: 0, squares: filled(squares, 7 - n, 0) }
    } else {
        Cursor { rank: 0, file: 8, squares: filled(squares, 0, 8) }
    }
}

/// The text of the `n` highest ranks fills in those ranks.
proof fn lemma_ranks_text(squares: Seq<Option<ColoredPiece>>, n: int)
    requires
        squares.len() == 64,
        0 <= n <= 8,
    ensures
        run(origin(), ranks_text(squares, n)) == Some(after_ranks(squares, n)),
        !occurs(ranks_text(squares, n), ' '),
    decreases n,
{
    if n == 0 {
        lemma_filled_ends(squares, 0);
        assert(ranks_text(squares, n) =~= Seq::<char>::empty());
    } else {
        lemma_ranks_text(squares, n - 1);
        let r = 8 - n;
        lemma_rank_text(squares, r);
        let above = ranks_text(squares, n - 1);
        let this = rank_text(squares, r);
        let slash = if n < 8 {
            seq!['/']
        } else {
            Seq::<char>::empty()
        };
        let at_start = Cursor { rank: r, file: 0, squares: filled(squares, r, 0) };
        let at_end = Cursor { rank: r, file: 8, squares: filled(squares, r, 8) };
        assert(after_ranks(squares, n - 1) == at_start);
        lemma_run_concat(origin(), above, this);
        assert(run(origin(), above + this) == Some(at_end));
        if n < 8 {
            lemma_run_push(origin(), above + this, '/');
            assert((above + this).push('/') =~= above + this + slash);
            lemma_filled_ends(squares, r);
        } else {
            assert(above + this + slash =~= above + this);
        }
        let text = above + this + slash;
        assert forall|i: int| 0 <= i < text.len() implies text[i] != ' ' by {
            if i < above.len() {
                assert(text[i] == above[i]);
            } else if i < above.len() + this.len() {
                assert(text[i] == this[i - above.len()]);
            }
        }
    }
}

/// The placement written for a table reads back as that table.
pub proof fn lemma_placement_round_trip(squares: Seq<Option<ColoredPiece>>)
    requires
        squares.len() == 64,
    ensures
        placement_of(ranks_text(squares, 8)) == Some(squares),
        !occurs(ranks_text(squares, 8), ' '),
{
    lemma_ranks_text(squares, 8);
    lemma_filled_ends(squares, 0);
}

/// A set of the four flags, built up flag by flag.
proof fn lemma_flags(set: u8)
    by (bit_vector)
    requires
        set < 16,
    ensures
        set & 1 != 0 ==> (0u8 | 1) == set & 1,
        set & 1 == 0 ==> 0u8 == set & 1,
        set & 2 != 0 ==> ((set & 1) | 2) == set & 3,
        set & 2 == 0 ==> (set & 1) == set & 3,
        set & 4 != 0 ==> ((set & 3) | 4) == set & 7,
        set & 4 == 0 ==> (set & 3) == set & 7,
        set & 8 != 0 ==> ((set & 7) | 8) == set,
        set & 8 == 0 ==> (set & 7) == set,
        (0u8 | 0u8) == 0,
{
}

/// One flag more in the castling text is one flag more in the set read.
proof fn lemma_castling_step(s: Seq<char>, set: u8, perm: CastlePerm, c: char, before: u8)
    requires
        castling_of(s) == Some(before),
        castling_flag(c) == Some(perm.mask()),
        !occurs(s, ' '),
        c != ' ',
    ensures
        castling_of(s + flag_text(set, perm, c)) == Some(
            if set & perm.mask() != 0 {
                before | perm.mask()
            } else {
                before
            },
        ),
        !occurs(s + flag_text(set, perm, c), ' '),
{
    let text = s + flag_text(set, perm, c);
    if set & perm.mask() != 0 {
        assert(text =~= s.push(c));
        assert(text.drop_last() =~= s);
        assert forall|i: int| 0 <= i < text.len() implies text[i] != ' ' by {
            if i < s.len() {
                assert(text[i] == s[i]);
            }
        }
    } else {
        assert(text =~= s);
    }
}

/// The castling field written for a set of the four flags reads back as
/// that set.
pub proof fn lemma_castling_round_trip(set: u8)
    requires
        set < 16,
    ensures
        castling_of(castling_text(set)) == Some(set),
        !occurs(castling_text(set), ' '),
{
    lemma_flags(set);
    if set == 0 {
        let text = seq!['-'];
        assert(text.drop_last() =~= Seq::<char>::empty());
        assert(castling_of(text.drop_last()) == Some(0u8));
        assert(text.last() == '-');
        assert forall|i: int| 0 <= i < text.len() implies text[i] != ' ' by {}
    } else {
        let s0 = Seq::<char>::empty();
        lemma_castling_step(s0, set, CastlePerm::WhiteKing, 'K', 0);
        let s1 = s0 + flag_text(set, CastlePerm::WhiteKing, 'K');
        lemma_castling_step(s1, set, CastlePerm::WhiteQueen, 'Q', set & 1);
        let s2 = s1 + flag_text(set, CastlePerm::WhiteQueen, 'Q');
        lemma_castling_step(s2, set, CastlePerm::BlackKing, 'k', set & 3);
        let s3 = s2 + flag_text(set, CastlePerm::BlackKing, 'k');
        lemma_castling_step(s3, set, CastlePerm::BlackQueen, 'q', set & 7);
        let s4 = s3 + flag_text(set, CastlePerm::BlackQueen, 'q');
        assert(s4 =~= castling_text(set));
    }
}

/// The en passant field written for a target reads back as that target.
pub proof fn lemma_en_passant_round_trip(target: Option<Square>)
    ensures
        en_passant_of(en_passant_text(target)) == Some(target),
        !occurs(en_passant_text(target), ' '),
{
    match target {
        None => {
            assert(seq!['-'][0] == '-');
        },
        Some(sq) => {
            lemma_square_name_round_trip(sq, sq.name());
            assert(sq.name().len() == 2);
            assert(seq!['-'].len() == 1);
            assert(sq.name()[0] != ' ' && sq.name()[1] != ' ');
        },
    }
}

/// The text of a well-formed position reads back as that position.
pub proof fn lemma_decode_encode(p: Position)
    requires
        p.well_formed(),
    ensures
        decode(encode(p)) == Some(p),
{
    let sp = seq![' '];
    let f0 = ranks_text(p.squares, 8);
    let f1 = seq![if p.white_to_move { 'w' } else { 'b' }];
    let f2 = castling_text(p.castling);
    let f3 = en_passant_text(p.en_passant);
    let f4 = decimal(p.halfmove as nat);
    let f5 = decimal(p.fullmove as nat);
    lemma_placement_round_trip(p.squares);
    lemma_castling_round_trip(p.castling);
    lemma_en_passant_round_trip(p.en_passant);
    lemma_decimal(p.halfmove as nat);
    lemma_decimal(p.fullmove as nat);
    lemma_parse_decimal(p.halfmove);
    lemma_parse_decimal(p.fullmove);
    assert(!occurs(f1, ' ')) by {
        assert(f1[0] != ' ');
    }
    let x1 = f0 + sp + f1;
    let x2 = x1 + sp + f2;
    let x3 = x2 + sp + f3;
    let x4 = x3 + sp + f4;
    let x5 = x4 + sp + f5;
    assert(encode(p) == x5);
    lemma_split_one(f0, ' ');
    lemma_split_one(f1, ' ');
    lemma_split_one(f2, ' ');
    lemma_split_one(f3, ' ');
    lemma_split_one(f4, ' ');
    lemma_split_one(f5, ' ');
    lemma_split_join(f0, f1, ' ');
    lemma_split_join(x1, f2, ' ');
    lemma_split_join(x2, f3, ' ');
    lemma_split_join(x3, f4, ' ');
    lemma_split_join(x4, f5, ' ');
    let f = split(x5, ' ');
    assert(f =~= seq![f0, f1, f2, f3, f4, f5]);
    assert(f[1] == seq!['w'] <==> p.white_to_move) by {
        if f1 == seq!['w'] {
            assert(f1[0] == 'w');
        }
    }
}

/// Writing a position that was read from a text gives a text that reads
/// back as the same position, and writing that again gives the same text:
/// the text written is a normal form, though it need not be the text read.
pub proof fn lemma_encode_is_normal_form(t: Seq<char>)
    requires
        decode(t) is Some,
    ensures
        ({
            let p = decode(t).unwrap();
            &&& decode(encode(p)) == Some(p)
            &&& encode(decode(encode(p)).unwrap()) == encode(p)
        }),
{
    lemma_decode_well_formed(t);
    lemma_decode_encode(decode(t).unwrap());
}

} // verus!
