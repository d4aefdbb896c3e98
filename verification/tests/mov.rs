use chess_core::mov::Move;
use chess_core::{Piece, Square};

#[test]
fn test_move() {
    let mov = Move::new(
        Square::A2,
        Square::A4,
        Piece::Pawn,
        Piece::NoPiece,
        Piece::NoPiece,
        false,
        false,
        false,
    );
    assert_eq!(mov.from(), Square::A2);
    assert_eq!(mov.to(), Square::A4);
    assert_eq!(mov.piece(), Piece::Pawn);
    assert_eq!(mov.captured(), Piece::NoPiece);
    assert_eq!(mov.promoted(), Piece::NoPiece);
    assert_eq!(mov.is_double_push(), false);
    assert_eq!(mov.is_en_passant(), false);
    assert_eq!(mov.is_castle(), false);
    assert_eq!(mov.is_capture(), false);
    assert_eq!(mov.is_promotion(), false);
}

#[test]
fn test_move_capture() {
    let mov = Move::new(
        Square::A2,
        Square::A4,
        Piece::Pawn,
        Piece::NoPiece,
        Piece::NoPiece,
        false,
        false,
        false,
    );
    assert_eq!(mov.is_capture(), false);

    let mov = Move::new(
        Square::A2,
        Square::A4,
        Piece::Pawn,
        Piece::Pawn,
        Piece::NoPiece,
        false,
        false,
        false,
    );
    assert_eq!(mov.is_capture(), true);
}

#[test]
fn test_move_promotion() {
    let mov = Move::new(
        Square::A7,
        Square::A8,
        Piece::Pawn,
        Piece::NoPiece,
        Piece::Queen,
        false,
        false,
        false,
    );
    assert_eq!(mov.is_promotion(), true);
}

#[test]
fn test_move_double_push() {
    let mov = Move::new(
        Square::A2,
        Square::A4,
        Piece::Pawn,
        Piece::NoPiece,
        Piece::NoPiece,
        true,
        false,
        false,
    );
    assert_eq!(mov.is_double_push(), true);
}

#[test]
fn test_move_en_passant() {
    let mov = Move::new(
        Square::A5,
        Square::B6,
        Piece::Pawn,
        Piece::Pawn,
        Piece::NoPiece,
        false,
        true,
        false,
    );
    assert_eq!(mov.is_en_passant(), true);
}

#[test]
fn test_move_castle() {
    let mov = Move::new(
        Square::E1,
        Square::G1,
        Piece::King,
        Piece::NoPiece,
        Piece::NoPiece,
        false,
        false,
        true,
    );
    assert_eq!(mov.is_castle(), true);
}

#[test]
fn double_push_scenario() {
    let mov = Move::new(
        Square::A2,
        Square::A4,
        Piece::Pawn,
        Piece::NoPiece,
        Piece::NoPiece,
        true,
        false,
        false,
    );
    assert_eq!(mov.from(), Square::A2);
    assert_eq!(mov.to(), Square::A4);
    assert_eq!(mov.piece(), Piece::Pawn);
    assert_eq!(mov.is_capture(), false);
    assert_eq!(mov.is_promotion(), false);
    assert_eq!(mov.is_double_push(), true);
    assert_eq!(mov.is_en_passant(), false);
    assert_eq!(mov.is_castle(), false);
}

#[test]
fn packed_layout() {
    let mov = Move::new(
        Square::A2,
        Square::A4,
        Piece::Pawn,
        Piece::NoPiece,
        Piece::NoPiece,
        true,
        false,
        false,
    );
    assert_eq!(mov.bits(), 8 | (24 << 6) | (1 << 12) | (1 << 21));
    let mov = Move::new(
        Square::H8,
        Square::G7,
        Piece::King,
        Piece::Queen,
        Piece::Rook,
        true,
        true,
        true,
    );
    assert_eq!(
        mov.bits(),
        63 | (54 << 6) | (6 << 12) | (5 << 15) | (4 << 18) | (1 << 21) | (1 << 22) | (1 << 23)
    );
    assert_eq!(mov.bits(), 0x00F2_EDBF);
    assert_eq!(mov.bits() >> 24, 0);
    let mov = Move::new(
        Square::A1,
        Square::A1,
        Piece::NoPiece,
        Piece::NoPiece,
        Piece::NoPiece,
        false,
        false,
        false,
    );
    assert_eq!(mov.bits(), 0);
}

#[test]
fn every_field_is_read_back() {
    let squares = [Square::A1, Square::H1, Square::D4, Square::A8, Square::H8];
    let kinds = [
        Piece::NoPiece,
        Piece::Pawn,
        Piece::Knight,
        Piece::Bishop,
        Piece::Rook,
        Piece::Queen,
        Piece::King,
    ];
    for from in squares.iter() {
        for to in squares.iter() {
            for (i, piece) in kinds.iter().enumerate() {
                let captured = kinds[(i + 3) % 7];
                let promoted = kinds[(i + 5) % 7];
                for flags in 0..8u8 {
                    let m = Move::new(
                        *from,
                        *to,
                        *piece,
                        captured,
                        promoted,
                        flags & 1 != 0,
                        flags & 2 != 0,
                        flags & 4 != 0,
                    );
                    assert_eq!(m.from(), *from);
                    assert_eq!(m.to(), *to);
                    assert_eq!(m.piece(), *piece);
                    assert_eq!(m.captured(), captured);
                    assert_eq!(m.promoted(), promoted);
                    assert_eq!(m.is_double_push(), flags & 1 != 0);
                    assert_eq!(m.is_en_passant(), flags & 2 != 0);
                    assert_eq!(m.is_castle(), flags & 4 != 0);
                    assert_eq!(m.is_capture(), captured != Piece::NoPiece);
                    assert_eq!(m.is_promotion(), promoted != Piece::NoPiece);
                }
            }
        }
    }
}

#[test]
fn moves_are_equal_when_their_fields_are() {
    let a = Move::new(
        Square::E2,
        Square::E4,
        Piece::Pawn,
        Piece::NoPiece,
        Piece::NoPiece,
        true,
        false,
        false,
    );
    let b = Move::new(
        Square::E2,
        Square::E4,
        Piece::Pawn,
        Piece::NoPiece,
        Piece::NoPiece,
        true,
        false,
        false,
    );
    let c = Move::new(
        Square::E2,
        Square::E4,
        Piece::Pawn,
        Piece::NoPiece,
        Piece::NoPiece,
        false,
        false,
        false,
    );
    assert_eq!(a, b);
    assert_eq!(a.bits(), b.bits());
    assert_ne!(a, c);
    assert_ne!(a.bits(), c.bits());
}
