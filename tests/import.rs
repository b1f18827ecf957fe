use chess::fen::{pos_from_algebraic_notation, GameData};
use chess::game::GameState;
use chess::position::{Piece, PieceType, PlayerType};

#[test]
fn reads_all_six_fields() {
    let d = GameData::from_fen("rnbqkbnr/pppp1ppp/8/4p3/4P3/8/PPPP1PPP/RNBQKBNR b Kq e3 4 17").unwrap();
    assert_eq!(d.active_color, PlayerType::Black);
    assert_eq!(d.castling_availability, (true, false, false, true));
    assert_eq!(d.en_passant_target_square, Some((4, 2)));
    assert_eq!(d.halfmove_clock, 4);
    assert_eq!(d.fullmove_number, 17);
    assert_eq!(d.table.len(), 64);
    // e4 is White's pawn, e5 Black's; a8 is Black's rook, h1 White's.
    assert_eq!(d.table[3 * 8 + 4], Some(Piece::new(PieceType::Pawn, PlayerType::White)));
    assert_eq!(d.table[4 * 8 + 4], Some(Piece::new(PieceType::Pawn, PlayerType::Black)));
    assert_eq!(d.table[7 * 8], Some(Piece::new(PieceType::Rook, PlayerType::Black)));
    assert_eq!(d.table[7], Some(Piece::new(PieceType::Rook, PlayerType::White)));
    assert_eq!(d.table[2 * 8 + 4], None);
}

#[test]
fn placeholders_mean_none() {
    let d = GameData::from_fen("8/8/8/8/8/8/8/8 w - - 0 1").unwrap();
    assert_eq!(d.castling_availability, (false, false, false, false));
    assert_eq!(d.en_passant_target_square, None);
    assert!(d.table.iter().all(|s| s.is_none()));
}

#[test]
fn extra_whitespace_and_fields_are_accepted() {
    let d = GameData::from_fen("  8/8/8/8/8/8/8/K6k \t w  -  -  12   30 extra").unwrap();
    assert_eq!(d.halfmove_clock, 12);
    assert_eq!(d.fullmove_number, 30);
    assert_eq!(d.table[0], Some(Piece::new(PieceType::King, PlayerType::White)));
    assert_eq!(d.table[7], Some(Piece::new(PieceType::King, PlayerType::Black)));
}

#[test]
fn missing_field_is_refused() {
    assert!(GameData::from_fen("8/8/8/8/8/8/8/8 w - - 0").is_none());
    assert!(GameData::from_fen("").is_none());
    assert!(GameState::from_fen("8/8/8/8/8/8/8/8 w - -").is_none());
}

#[test]
fn side_to_move_must_be_w_or_b() {
    assert!(GameData::from_fen("8/8/8/8/8/8/8/8 x - - 0 1").is_none());
    assert!(GameData::from_fen("8/8/8/8/8/8/8/8 wb - - 0 1").is_none());
    assert!(GameData::from_fen("8/8/8/8/8/8/8/8 W - - 0 1").is_none());
}

#[test]
fn malformed_board_is_refused() {
    // A rank of nine files, a rank of seven, seven ranks, nine ranks.
    assert!(GameData::from_fen("9/8/8/8/8/8/8/8 w - - 0 1").is_none());
    assert!(GameData::from_fen("ppppppppp/8/8/8/8/8/8/8 w - - 0 1").is_none());
    assert!(GameData::from_fen("7/8/8/8/8/8/8/8 w - - 0 1").is_none());
    assert!(GameData::from_fen("8/8/8/8/8/8/8 w - - 0 1").is_none());
    assert!(GameData::from_fen("8/8/8/8/8/8/8/8/8 w - - 0 1").is_none());
    // A letter that names no piece.
    assert!(GameData::from_fen("x7/8/8/8/8/8/8/8 w - - 0 1").is_none());
    assert!(GameData::from_fen("0p7/8/8/8/8/8/8/8 w - - 0 1").is_none());
}

#[test]
fn counters_must_be_unsigned_integers() {
    assert!(GameData::from_fen("8/8/8/8/8/8/8/8 w - - -1 1").is_none());
    assert!(GameData::from_fen("8/8/8/8/8/8/8/8 w - - 0 one").is_none());
    assert!(GameData::from_fen("8/8/8/8/8/8/8/8 w - - 0 4294967296").is_none());
    let d = GameData::from_fen("8/8/8/8/8/8/8/8 w - - 0 4294967295").unwrap();
    assert_eq!(d.fullmove_number, 4294967295);
}

#[test]
fn odd_en_passant_field_names_no_square() {
    let d = GameData::from_fen("8/8/8/8/8/8/8/8 w - e9 0 1").unwrap();
    assert_eq!(d.en_passant_target_square, None);
    let e = GameData::from_fen("8/8/8/8/8/8/8/8 w - h6 0 1").unwrap();
    assert_eq!(e.en_passant_target_square, Some((7, 5)));
}

#[test]
fn algebraic_squares() {
    assert_eq!(pos_from_algebraic_notation("a1"), Some((0, 0)));
    assert_eq!(pos_from_algebraic_notation("e4"), Some((4, 3)));
    assert_eq!(pos_from_algebraic_notation("h8"), Some((7, 7)));
    assert_eq!(pos_from_algebraic_notation("i1"), None);
    assert_eq!(pos_from_algebraic_notation("a0"), None);
    assert_eq!(pos_from_algebraic_notation("e45"), None);
    assert_eq!(pos_from_algebraic_notation("-"), None);
}
