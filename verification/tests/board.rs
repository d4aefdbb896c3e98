use chess_core::board::Board;
use chess_core::{CastlePerm, Color, ColoredPiece, Square};

const START: &str = "rnbqkbnr/pppppppp/8/8/8/8/PPPPPPPP/RNBQKBNR w KQkq - 0 1";

#[test]
fn from_fen() {
    let b =
        Board::from_fen("rnbqkbnr/pppppppp/8/8/8/8/PPPPPPPP/RNBQKBNR w KQkq - 0 1").unwrap();
    assert_eq!(b.white_to_move(), true);
    assert_eq!(b.halfmove_clock(), 0);
    assert_eq!(b.fullmove_number(), 1);
    assert_eq!(b.en_passant(), None);
    assert_eq!(b.castling(), CastlePerm::All.bits());
    assert_eq!(b.occupancy(Color::White), 0x000000000000FFFF);
    assert_eq!(b.occupancy(Color::Black), 0xFFFF000000000000);
    assert_eq!(b.occupancy(Color::Both), 0xFFFF00000000FFFF);
    assert_eq!(b.pieces(ColoredPiece::WhitePawn), 0x000000000000FF00);
    assert_eq!(b.pieces(ColoredPiece::WhiteKnight), 0x0000000000000042);
    assert_eq!(b.pieces(ColoredPiece::WhiteBishop), 0x0000000000000024);
    assert_eq!(b.pieces(ColoredPiece::WhiteRook), 0x0000000000000081);
    assert_eq!(b.pieces(ColoredPiece::WhiteQueen), 0x0000000000000008);
    assert_eq!(b.pieces(ColoredPiece::WhiteKing), 0x0000000000000010);
    assert_eq!(b.pieces(ColoredPiece::BlackPawn), 0x00FF000000000000);
    assert_eq!(b.pieces(ColoredPiece::BlackKnight), 0x4200000000000000);
    assert_eq!(b.pieces(ColoredPiece::BlackBishop), 0x2400000000000000);
    assert_eq!(b.pieces(ColoredPiece::BlackRook), 0x8100000000000000);
    assert_eq!(b.pieces(ColoredPiece::BlackQueen), 0x0800000000000000);
    assert_eq!(b.pieces(ColoredPiece::BlackKing), 0x1000000000000000);
    assert_eq!(b.piece_at(Square::A1), Some(ColoredPiece::WhiteRook));
    assert_eq!(b.piece_at(Square::B1), Some(ColoredPiece::WhiteKnight));
    assert_eq!(b.piece_at(Square::C1), Some(ColoredPiece::WhiteBishop));
    assert_eq!(b.piece_at(Square::D1), Some(ColoredPiece::WhiteQueen));
    assert_eq!(b.piece_at(Square::E1), Some(ColoredPiece::WhiteKing));
    assert_eq!(b.piece_at(Square::F1), Some(ColoredPiece::WhiteBishop));
    assert_eq!(b.piece_at(Square::G1), Some(ColoredPiece::WhiteKnight));
    assert_eq!(b.piece_at(Square::H1), Some(ColoredPiece::WhiteRook));
    assert_eq!(b.piece_at(Square::A2), Some(ColoredPiece::WhitePawn));
    assert_eq!(b.piece_at(Square::B2), Some(ColoredPiece::WhitePawn));
    assert_eq!(b.piece_at(Square::C2), Some(ColoredPiece::WhitePawn));
    assert_eq!(b.piece_at(Square::D2), Some(ColoredPiece::WhitePawn));
    assert_eq!(b.piece_at(Square::E2), Some(ColoredPiece::WhitePawn));
    assert_eq!(b.piece_at(Square::F2), Some(ColoredPiece::WhitePawn));
    assert_eq!(b.piece_at(Square::G2), Some(ColoredPiece::WhitePawn));
    assert_eq!(b.piece_at(Square::H2), Some(ColoredPiece::WhitePawn));
    assert_eq!(b.piece_at(Square::A3), None);
    assert_eq!(b.piece_at(Square::B3), None);
    assert_eq!(b.piece_at(Square::C3), None);
    assert_eq!(b.piece_at(Square::D3), None);
    assert_eq!(b.piece_at(Square::E3), None);
    assert_eq!(b.piece_at(Square::F3), None);
    assert_eq!(b.piece_at(Square::G3), None);
    assert_eq!(b.piece_at(Square::H3), None);
    assert_eq!(b.piece_at(Square::A4), None);
    assert_eq!(b.piece_at(Square::B4), None);
    assert_eq!(b.piece_at(Square::C4), None);
    assert_eq!(b.piece_at(Square::D4), None);
    assert_eq!(b.piece_at(Square::E4), None);
    assert_eq!(b.piece_at(Square::F4), None);
    assert_eq!(b.piece_at(Square::G4), None);
    assert_eq!(b.piece_at(Square::H4), None);
    assert_eq!(b.piece_at(Square::A5), None);
    assert_eq!(b.piece_at(Square::B5), None);
    assert_eq!(b.piece_at(Square::C5), None);
    assert_eq!(b.piece_at(Square::D5), None);
    assert_eq!(b.piece_at(Square::E5), None);
    assert_eq!(b.piece_at(Square::F5), None);
    assert_eq!(b.piece_at(Square::G5), None);
    assert_eq!(b.piece_at(Square::H5), None);
    assert_eq!(b.piece_at(Square::A6), None);
    assert_eq!(b.piece_at(Square::B6), None);
    assert_eq!(b.piece_at(Square::C6), None);
    assert_eq!(b.piece_at(Square::D6), None);
    assert_eq!(b.piece_at(Square::E6), None);
    assert_eq!(b.piece_at(Square::F6), None);
    assert_eq!(b.piece_at(Square::G6), None);
    assert_eq!(b.piece_at(Square::H6), None);
    assert_eq!(b.piece_at(Square::A7), Some(ColoredPiece::BlackPawn));
    assert_eq!(b.piece_at(Square::B7), Some(ColoredPiece::BlackPawn));
    assert_eq!(b.piece_at(Square::C7), Some(ColoredPiece::BlackPawn));
    assert_eq!(b.piece_at(Square::D7), Some(ColoredPiece::BlackPawn));
    assert_eq!(b.piece_at(Square::E7), Some(ColoredPiece::BlackPawn));
    assert_eq!(b.piece_at(Square::F7), Some(ColoredPiece::BlackPawn));
    assert_eq!(b.piece_at(Square::G7), Some(ColoredPiece::BlackPawn));
    assert_eq!(b.piece_at(Square::H7), Some(ColoredPiece::BlackPawn));
    assert_eq!(b.piece_at(Square::A8), Some(ColoredPiece::BlackRook));
    assert_eq!(b.piece_at(Square::B8), Some(ColoredPiece::BlackKnight));
    assert_eq!(b.piece_at(Square::C8), Some(ColoredPiece::BlackBishop));
    assert_eq!(b.piece_at(Square::D8), Some(ColoredPiece::BlackQueen));
    assert_eq!(b.piece_at(Square::E8), Some(ColoredPiece::BlackKing));
    assert_eq!(b.piece_at(Square::F8), Some(ColoredPiece::BlackBishop));
    assert_eq!(b.piece_at(Square::G8), Some(ColoredPiece::BlackKnight));
    assert_eq!(b.piece_at(Square::H8), Some(ColoredPiece::BlackRook));
}

#[test]
fn to_fen() {
    let b =
        Board::from_fen("rnbqkbnr/pppppppp/8/8/8/8/PPPPPPPP/RNBQKBNR w KQkq - 0 1").unwrap();
    assert_eq!(
        b.to_fen(),
        "rnbqkbnr/pppppppp/8/8/8/8/PPPPPPPP/RNBQKBNR w KQkq - 0 1"
    );
}

const ALL_SQUARES: [Square; 64] = [
    Square::A1, Square::B1, Square::C1, Square::D1, Square::E1, Square::F1, Square::G1, Square::H1,
    Square::A2, Square::B2, Square::C2, Square::D2, Square::E2, Square::F2, Square::G2, Square::H2,
    Square::A3, Square::B3, Square::C3, Square::D3, Square::E3, Square::F3, Square::G3, Square::H3,
    Square::A4, Square::B4, Square::C4, Square::D4, Square::E4, Square::F4, Square::G4, Square::H4,
    Square::A5, Square::B5, Square::C5, Square::D5, Square::E5, Square::F5, Square::G5, Square::H5,
    Square::A6, Square::B6, Square::C6, Square::D6, Square::E6, Square::F6, Square::G6, Square::H6,
    Square::A7, Square::B7, Square::C7, Square::D7, Square::E7, Square::F7, Square::G7, Square::H7,
    Square::A8, Square::B8, Square::C8, Square::D8, Square::E8, Square::F8, Square::G8, Square::H8,
];

const ALL_PIECES: [ColoredPiece; 12] = [
    ColoredPiece::WhitePawn,
    ColoredPiece::WhiteKnight,
    ColoredPiece::WhiteBishop,
    ColoredPiece::WhiteRook,
    ColoredPiece::WhiteQueen,
    ColoredPiece::WhiteKing,
    ColoredPiece::BlackPawn,
    ColoredPiece::BlackKnight,
    ColoredPiece::BlackBishop,
    ColoredPiece::BlackRook,
    ColoredPiece::BlackQueen,
    ColoredPiece::BlackKing,
];

fn check_invariants(b: &Board) {
    let white = b.occupancy(Color::White);
    let black = b.occupancy(Color::Black);
    assert_eq!(b.occupancy(Color::Both), white | black);
    assert_eq!(white & black, 0);
    for (i, sq) in ALL_SQUARES.iter().enumerate() {
        assert_eq!(sq.to_u8() as usize, i);
        let holders: Vec<ColoredPiece> = ALL_PIECES
            .iter()
            .copied()
            .filter(|p| (b.pieces(*p) >> i) & 1 == 1)
            .collect();
        match b.piece_at(*sq) {
            None => {
                assert!(holders.is_empty());
                assert_eq!((white >> i) & 1, 0);
                assert_eq!((black >> i) & 1, 0);
            }
            Some(p) => {
                assert_eq!(holders, vec![p]);
                assert_eq!((b.occupancy(p.color()) >> i) & 1, 1);
            }
        }
    }
}

#[test]
fn start_position_end_to_end() {
    let b = Board::from_fen(START).unwrap();
    assert!(b.white_to_move());
    assert_eq!(b.halfmove_clock(), 0);
    assert_eq!(b.fullmove_number(), 1);
    assert_eq!(b.en_passant(), None);
    assert_eq!(b.castling(), 15);
    assert_eq!(b.occupancy(Color::White), 0xFFFF);
    assert_eq!(b.occupancy(Color::Black), 0xFFFF_0000_0000_0000);
    assert_eq!(b.to_fen(), START);
    check_invariants(&b);
}

#[test]
fn empty_board() {
    let b = Board::from_fen("8/8/8/8/8/8/8/8 w - - 0 1").unwrap();
    assert_eq!(b.occupancy(Color::White), 0);
    assert_eq!(b.occupancy(Color::Black), 0);
    assert_eq!(b.occupancy(Color::Both), 0);
    for sq in ALL_SQUARES.iter() {
        assert_eq!(b.piece_at(*sq), None);
    }
    for p in ALL_PIECES.iter() {
        assert_eq!(b.pieces(*p), 0);
    }
    assert_eq!(b.castling(), 0);
    assert_eq!(b.to_fen(), "8/8/8/8/8/8/8/8 w - - 0 1");
}

#[test]
fn refuses_wrong_field_count() {
    assert_eq!(Board::from_fen("8/8/8/8/8/8/8/8 w - - 0"), None);
    assert_eq!(Board::from_fen("8/8/8/8/8/8/8/8 w - - 0 1 x"), None);
    assert_eq!(Board::from_fen(""), None);
    assert_eq!(Board::from_fen("8/8/8/8/8/8/8/8  w - - 0 1"), None);
    assert_eq!(Board::from_fen("8/8/8/8/8/8/8/8 w - - 0 1 "), None);
}

#[test]
fn refuses_unknown_placement_character() {
    assert_eq!(Board::from_fen("8/8/8/8/8/8/8/7x w - - 0 1"), None);
    assert_eq!(Board::from_fen("x w - - 0 1"), None);
    assert_eq!(Board::from_fen("9/8/8/8/8/8/8/8 w - - 0 1"), None);
    assert_eq!(Board::from_fen("0/8/8/8/8/8/8/8 w - - 0 1"), None);
}

#[test]
fn refuses_unknown_castling_character() {
    assert_eq!(Board::from_fen("8/8/8/8/8/8/8/8 w z - 0 1"), None);
    assert_eq!(Board::from_fen("8/8/8/8/8/8/8/8 w KQzq - 0 1"), None);
}

#[test]
fn refuses_bad_en_passant() {
    assert_eq!(Board::from_fen("8/8/8/8/8/8/8/8 w - z9 0 1"), None);
    assert_eq!(Board::from_fen("8/8/8/8/8/8/8/8 w - e 0 1"), None);
    assert_eq!(Board::from_fen("8/8/8/8/8/8/8/8 w - e33 0 1"), None);
    assert_eq!(Board::from_fen("8/8/8/8/8/8/8/8 w - E3 0 1"), None);
    assert_eq!(Board::from_fen("8/8/8/8/8/8/8/8 w - -- 0 1"), None);
}

#[test]
fn refuses_bad_counters() {
    assert_eq!(Board::from_fen("8/8/8/8/8/8/8/8 w - - x 1"), None);
    assert_eq!(Board::from_fen("8/8/8/8/8/8/8/8 w - - 0 -1"), None);
    assert_eq!(Board::from_fen("8/8/8/8/8/8/8/8 w - - -0 1"), None);
    assert_eq!(Board::from_fen("8/8/8/8/8/8/8/8 w - - + 1"), None);
    assert_eq!(Board::from_fen("8/8/8/8/8/8/8/8 w - - 1a 1"), None);
    assert_eq!(Board::from_fen("8/8/8/8/8/8/8/8 w - - 0 1.5"), None);
    assert_eq!(Board::from_fen("8/8/8/8/8/8/8/8 w - -  1"), None);
}

#[test]
fn refuses_a_counter_that_64_bits_do_not_hold() {
    assert_eq!(Board::from_fen("8/8/8/8/8/8/8/8 w - - 18446744073709551616 1"), None);
    assert_eq!(Board::from_fen("8/8/8/8/8/8/8/8 w - - 0 18446744073709551616"), None);
    assert_eq!(Board::from_fen("8/8/8/8/8/8/8/8 w - - 0 99999999999999999999"), None);
    assert_eq!(Board::from_fen("8/8/8/8/8/8/8/8 w - - 0 184467440737095516150"), None);
}

#[test]
fn counters_are_read_as_numbers() {
    let b = Board::from_fen("8/8/8/8/8/8/8/8 w - - 255 007").unwrap();
    assert_eq!(b.halfmove_clock(), 255);
    assert_eq!(b.fullmove_number(), 7);
    assert_eq!(b.to_fen(), "8/8/8/8/8/8/8/8 w - - 255 7");
    let b = Board::from_fen("8/8/8/8/8/8/8/8 w - - +12 100").unwrap();
    assert_eq!(b.halfmove_clock(), 12);
    assert_eq!(b.fullmove_number(), 100);
    assert_eq!(b.to_fen(), "8/8/8/8/8/8/8/8 w - - 12 100");
}

#[test]
fn large_counters_are_read_and_written_back() {
    let b = Board::from_fen("8/8/8/8/8/8/8/8 w - - 0 300").unwrap();
    assert_eq!(b.halfmove_clock(), 0);
    assert_eq!(b.fullmove_number(), 300);
    assert_eq!(b.to_fen(), "8/8/8/8/8/8/8/8 w - - 0 300");
    let b = Board::from_fen("8/8/8/8/8/8/8/8 b - - 256 1000").unwrap();
    assert_eq!(b.halfmove_clock(), 256);
    assert_eq!(b.fullmove_number(), 1000);
    assert_eq!(b.to_fen(), "8/8/8/8/8/8/8/8 b - - 256 1000");
    let b = Board::from_fen("8/8/8/8/8/8/8/8 w - - 65536 4294967296").unwrap();
    assert_eq!(b.halfmove_clock(), 65536);
    assert_eq!(b.fullmove_number(), 4294967296);
    assert_eq!(b.to_fen(), "8/8/8/8/8/8/8/8 w - - 65536 4294967296");
}

#[test]
fn the_largest_counter_is_read_and_written_back() {
    let text = "8/8/8/8/8/8/8/8 w - - 18446744073709551615 18446744073709551615";
    let b = Board::from_fen(text).unwrap();
    assert_eq!(b.halfmove_clock(), u64::MAX);
    assert_eq!(b.fullmove_number(), u64::MAX);
    assert_eq!(b.to_fen(), text);
}

#[test]
fn refuses_a_rank_that_is_too_long() {
    assert_eq!(Board::from_fen("ppppppppp/8/8/8/8/8/8/8 w - - 0 1"), None);
    assert_eq!(Board::from_fen("8p/8/8/8/8/8/8/8 w - - 0 1"), None);
    assert_eq!(Board::from_fen("r7/7Pp/8/8/8/8/8/8 w - - 0 1"), None);
    assert_eq!(Board::from_fen("45/8/8/8/8/8/8/8 w - - 0 1"), None);
    assert_eq!(Board::from_fen("88/8/8/8/8/8/8/8 w - - 0 1"), None);
}

#[test]
fn refuses_a_ninth_rank() {
    assert_eq!(Board::from_fen("8/8/8/8/8/8/8/8/8 w - - 0 1"), None);
    assert_eq!(Board::from_fen("8/8/8/8/8/8/8/8/ w - - 0 1"), None);
}

#[test]
fn short_placement_leaves_the_rest_empty() {
    let b = Board::from_fen("k7/8 b - - 3 9").unwrap();
    assert_eq!(b.piece_at(Square::A8), Some(ColoredPiece::BlackKing));
    assert_eq!(b.occupancy(Color::Both), 1u64 << 56);
    assert_eq!(b.white_to_move(), false);
    assert_eq!(b.to_fen(), "k7/8/8/8/8/8/8/8 b - - 3 9");
    check_invariants(&b);
}

#[test]
fn side_field_other_than_w_is_black() {
    let b = Board::from_fen("8/8/8/8/8/8/8/8 b - - 0 1").unwrap();
    assert_eq!(b.white_to_move(), false);
    let b = Board::from_fen("8/8/8/8/8/8/8/8 x - - 0 1").unwrap();
    assert_eq!(b.white_to_move(), false);
    assert_eq!(b.to_fen(), "8/8/8/8/8/8/8/8 b - - 0 1");
}

#[test]
fn castling_is_written_in_fixed_order() {
    let b = Board::from_fen("8/8/8/8/8/8/8/8 w qkQK - 0 1").unwrap();
    assert_eq!(b.castling(), 15);
    assert_eq!(b.to_fen(), "8/8/8/8/8/8/8/8 w KQkq - 0 1");
    let b = Board::from_fen("8/8/8/8/8/8/8/8 w kK - 0 1").unwrap();
    assert_eq!(
        b.castling(),
        CastlePerm::WhiteKing.bits() | CastlePerm::BlackKing.bits()
    );
    assert_eq!(b.castling(), 5);
    assert_eq!(b.to_fen(), "8/8/8/8/8/8/8/8 w Kk - 0 1");
    let b = Board::from_fen("8/8/8/8/8/8/8/8 w Q-q - 0 1").unwrap();
    assert_eq!(b.castling(), 10);
    assert_eq!(b.to_fen(), "8/8/8/8/8/8/8/8 w Qq - 0 1");
}

#[test]
fn en_passant_target_round_trip() {
    let text = "rnbqkbnr/pppppppp/8/8/4P3/8/PPPP1PPP/RNBQKBNR b KQkq e3 0 1";
    let b = Board::from_fen(text).unwrap();
    assert_eq!(b.en_passant(), Some(Square::E3));
    assert_eq!(b.piece_at(Square::E4), Some(ColoredPiece::WhitePawn));
    assert_eq!(b.piece_at(Square::E2), None);
    assert_eq!(b.to_fen(), text);
    check_invariants(&b);
}

#[test]
fn encoding_is_a_normal_form() {
    let texts = [
        START,
        "8/8/8/8/8/8/8/8 w - - 0 1",
        "k7/8 b qK - 3 9",
        "r3k2r/p1ppqpb1/bn2pnp1/3PN3/1p2P3/2N2Q1p/PPPBBPPP/R3K2R w KQkq - 0 1",
        "8/2p5/3p4/KP5r/1R3p1k/8/4P1P1/8 w - - 10 42",
        "1p1p1p1p/p1p1p1p1/8/8/8/8/8/8 x -K- a6 +7 007",
    ];
    for t in texts.iter() {
        let first = Board::from_fen(t).unwrap();
        check_invariants(&first);
        let normal = first.to_fen();
        let second = Board::from_fen(&normal).unwrap();
        assert_eq!(second, first);
        assert_eq!(second.to_fen(), normal);
    }
}

#[test]
fn runs_of_empty_squares_are_collapsed() {
    let b = Board::from_fen("1111p111/11111111/8/8/8/8/8/Q6q w - - 0 1").unwrap();
    assert_eq!(b.to_fen(), "4p3/8/8/8/8/8/8/Q6q w - - 0 1");
    assert_eq!(b.piece_at(Square::E8), Some(ColoredPiece::BlackPawn));
    assert_eq!(b.piece_at(Square::A1), Some(ColoredPiece::WhiteQueen));
    assert_eq!(b.piece_at(Square::H1), Some(ColoredPiece::BlackQueen));
}
