//! The packed move: one transition of the game in a single `u32`.

use crate::{Piece, Square};
use vstd::prelude::*;

verus! {

/// What a move records.
pub struct MoveFields {
    pub from: Square,
    pub to: Square,
    pub piece: Piece,
    pub captured: Piece,
    pub promoted: Piece,
    pub double_push: bool,
    pub en_passant: bool,
    pub castle: bool,
}

/// The integer that holds `f`: the source square in bits 0 to 5, the
/// destination in bits 6 to 11, the moving, captured and promotion piece
/// kinds in three bits each from bits 12, 15 and 18, then the double-push,
/// en-passant and castle flags in bits 21, 22 and 23. Bits 24 to 31 are 0.
pub open spec fn pack(f: MoveFields) -> u32 {
    (f.from.index() as u32) | ((f.to.index() as u32) << 6) | ((f.piece.index() as u32) << 12) | ((
    f.captured.index() as u32) << 15) | ((f.promoted.index() as u32) << 18) | (flag(
        f.double_push,
    ) << 21) | (flag(f.en_passant) << 22) | (flag(f.castle) << 23)
}

/// The bit that stands for a flag.
pub open spec fn flag(b: bool) -> u32 {
    if b {
        1
    } else {
        0
    }
}

/// What the integer `m` records, field by field.
pub open spec fn unpack(m: u32) -> MoveFields {
    MoveFields {
        from: Square::at((m & 0x3f) as int),
        to: Square::at(((m >> 6) & 0x3f) as int),
        piece: Piece::at(((m >> 12) & 0x7) as int),
        captured: Piece::at(((m >> 15) & 0x7) as int),
        promoted: Piece::at(((m >> 18) & 0x7) as int),
        double_push: (m >> 21) & 0x1 == 1,
        en_passant: (m >> 22) & 0x1 == 1,
        castle: (m >> 23) & 0x1 == 1,
    }
}

/// Whether `m` is the integer of some move: no piece kind field holds 7,
/// and the reserved bits are 0.
pub open spec fn is_packed(m: u32) -> bool {
    &&& (m >> 12) & 0x7 <= 6
    &&& (m >> 15) & 0x7 <= 6
    &&& (m >> 18) & 0x7 <= 6
    &&& m >> 24 == 0
}

/// Each field is read back from the integer that the fields are packed
/// into, and the reserved bits of that integer are 0.
proof fn lemma_layout(
    from: u32,
    to: u32,
    piece: u32,
    captured: u32,
    promoted: u32,
    double_push: u32,
    en_passant: u32,
    castle: u32,
)
    by (bit_vector)
    requires
        from < 64,
        to < 64,
        piece < 7,
        captured < 7,
        promoted < 7,
        double_push < 2,
        en_passant < 2,
        castle < 2,
    ensures
        ({
            let m = from | (to << 6) | (piece << 12) | (captured << 15) | (promoted << 18) | (
            double_push << 21) | (en_passant << 22) | (castle << 23);
            &&& m & 0x3f == from
            &&& (m >> 6) & 0x3f == to
            &&& (m >> 12) & 0x7 == piece
            &&& (m >> 15) & 0x7 == captured
            &&& (m >> 18) & 0x7 == promoted
            &&& (m >> 21) & 0x1 == double_push
            &&& (m >> 22) & 0x1 == en_passant
            &&& (m >> 23) & 0x1 == castle
            &&& m >> 24 == 0
        }),
{
}

/// The fields of an integer are within their widths, and an integer with
/// the reserved bits 0 is its fields packed.
proof fn lemma_fields_of(m: u32)
    by (bit_vector)
    ensures
        m & 0x3f < 64,
        (m >> 6) & 0x3f < 64,
        (m >> 12) & 0x7 < 8,
        (m >> 15) & 0x7 < 8,
        (m >> 18) & 0x7 < 8,
        (m >> 21) & 0x1 < 2,
        (m >> 22) & 0x1 < 2,
        (m >> 23) & 0x1 < 2,
        m >> 24 == 0 ==> m == (m & 0x3f) | (((m >> 6) & 0x3f) << 6) | (((m >> 12) & 0x7) << 12) | (((m
            >> 15) & 0x7) << 15) | (((m >> 18) & 0x7) << 18) | (((m >> 21) & 0x1) << 21) | (((m
            >> 22) & 0x1) << 22) | (((m >> 23) & 0x1) << 23),
{
}

/// Packing records exactly the fields that were packed.
pub proof fn lemma_unpack_pack(f: MoveFields)
    ensures
        is_packed(pack(f)),
        unpack(pack(f)) == f,
{
    lemma_layout(
        f.from.index() as u32,
        f.to.index() as u32,
        f.piece.index() as u32,
        f.captured.index() as u32,
        f.promoted.index() as u32,
        flag(f.double_push),
        flag(f.en_passant),
        flag(f.castle),
    );
}

/// The integer of a move packs what it records, so two such integers that
/// record the same fields are the same integer.
pub proof fn lemma_pack_unpack(m: u32)
    requires
        is_packed(m),
    ensures
        pack(unpack(m)) == m,
{
    lemma_fields_of(m);
}

/// One transition of the game, packed into 32 bits. It records what it was
/// built from and checks nothing of it against a position.
#[derive(Debug, Clone, Copy, PartialEq, Eq, Structural)]
pub struct Move(u32);

impl View for Move {
    type V = MoveFields;

    /// What this move records.
    open spec fn view(&self) -> MoveFields {
        unpack(self.raw())
    }
}

impl Move {
    /// The packed integer.
    pub closed spec fn raw(self) -> u32 {
        self.0
    }

    /// Every move that exists holds the integer of a move.
    #[verifier::type_invariant]
    pub open spec fn well_formed(self) -> bool {
        is_packed(self.raw())
    }

    /// Packs the eight fields; none is checked against the others.
    #[inline]
    pub fn new(
        from: Square,
        to: Square,
        piece: Piece,
        captured: Piece,
        promoted: Piece,
        is_double_push: bool,
        is_en_passant: bool,
        is_castle: bool,
    ) -> (m: Move)
        ensures
            m.well_formed(),
            m.raw() == pack(
                MoveFields {
                    from,
                    to,
                    piece,
                    captured,
                    promoted,
                    double_push: is_double_push,
                    en_passant: is_en_passant,
                    castle: is_castle,
                },
            ),
            m@ == (MoveFields {
                from,
                to,
                piece,
                captured,
                promoted,
                double_push: is_double_push,
                en_passant: is_en_passant,
                castle: is_castle,
            }),
    {
        let ghost fields = MoveFields {
            from,
            to,
            piece,
            captured,
            promoted,
            double_push: is_double_push,
            en_passant: is_en_passant,
            castle: is_castle,
        };
        let mut mov: u32 = 0;
        mov |= from.to_u8() as u32;
        mov |= (to.to_u8() as u32) << 6;
        mov |= (piece.to_u8() as u32) << 12;
        mov |= (captured.to_u8() as u32) << 15;
        mov |= (promoted.to_u8() as u32) << 18;
        mov |= (if is_double_push { 1u32 } else { 0u32 }) << 21;
        mov |= (if is_en_passant { 1u32 } else { 0u32 }) << 22;
        mov |= (if is_castle { 1u32 } else { 0u32 }) << 23;
        proof {
            let source = from.index() as u32;
            assert(0u32 | source == source) by (bit_vector);
            assert(mov == pack(fields));
            lemma_unpack_pack(fields);
        }
        Move(mov)
    }

    /// The packed integer.
    #[inline]
    pub fn bits(&self) -> (r: u32)
        ensures
            r == self.raw(),
            is_packed(r),
    {
        proof {
            use_type_invariant(self);
        }
        self.0
    }

    /// The source square.
    #[inline]
    pub fn from(&self) -> (sq: Square)
        ensures
            sq == self@.from,
    {
        proof {
            lemma_fields_of(self.0);
        }
        Square::try_from((self.0 & 0b111111) as u8).unwrap()
    }

    /// The destination square.
    #[inline]
    pub fn to(&self) -> (sq: Square)
        ensures
            sq == self@.to,
    {
        proof {
            lemma_fields_of(self.0);
        }
        Square::try_from(((self.0 >> 6) & 0b111111) as u8).unwrap()
    }

    /// The kind of the piece that moves.
    #[inline]
    pub fn piece(&self) -> (p: Piece)
        ensures
            p == self@.piece,
    {
        proof {
            use_type_invariant(self);
            lemma_fields_of(self.0);
        }
        Piece::try_from(((self.0 >> 12) & 0b111) as u8).unwrap()
    }

    /// The kind of the piece that is captured, `NoPiece` without a capture.
    #[inline]
    pub fn captured(&self) -> (p: Piece)
        ensures
            p == self@.captured,
    {
        proof {
            use_type_invariant(self);
            lemma_fields_of(self.0);
        }
        Piece::try_from(((self.0 >> 15) & 0b111) as u8).unwrap()
    }

    /// The kind that a pawn is promoted to, `NoPiece` without a promotion.
    #[inline]
    pub fn promoted(&self) -> (p: Piece)
        ensures
            p == self@.promoted,
    {
        proof {
            use_type_invariant(self);
            lemma_fields_of(self.0);
        }
        Piece::try_from(((self.0 >> 18) & 0b111) as u8).unwrap()
    }

    /// Whether a pawn advances two squares.
    #[inline]
    pub fn is_double_push(&self) -> (b: bool)
        ensures
            b == self@.double_push,
    {
        ((self.0 >> 21) & 0b1) == 1
    }

    /// Whether a pawn captures in passing.
    #[inline]
    pub fn is_en_passant(&self) -> (b: bool)
        ensures
            b == self@.en_passant,
    {
        ((self.0 >> 22) & 0b1) == 1
    }

    /// Whether the king castles.
    #[inline]
    pub fn is_castle(&self) -> (b: bool)
        ensures
            b == self@.castle,
    {
        ((self.0 >> 23) & 0b1) == 1
    }

    /// Whether a piece is captured.
    #[inline]
    pub fn is_capture(&self) -> (b: bool)
        ensures
            b <==> self@.captured != Piece::NoPiece,
    {
        self.captured() != Piece::NoPiece
    }

    /// Whether a pawn is promoted.
    #[inline]
    pub fn is_promotion(&self) -> (b: bool)
        ensures
            b <==> self@.promoted != Piece::NoPiece,
    {
        self.promoted() != Piece::NoPiece
    }
}

/// Two moves are equal exactly when their packed integers are, and that is
/// exactly when they record the same fields.
pub proof fn lemma_move_equality(a: Move, b: Move)
    requires
        a.well_formed(),
        b.well_formed(),
    ensures
        a == b <==> a.raw() == b.raw(),
        a == b <==> a@ == b@,
{
    lemma_pack_unpack(a.raw());
    lemma_pack_unpack(b.raw());
}

} // verus!
