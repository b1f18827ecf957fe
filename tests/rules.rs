use chess::game::{GameEnd, GameState, MoveResult};
use chess::move_history::{CastleType, ChessMove, ChessMoveKind, ChessMoveVector};
use chess::position::{ChessPosition, Piece, PieceType, PlayerType};

const START: &str = "rnbqkbnr/pppppppp/8/8/8/8/PPPPPPPP/RNBQKBNR w KQkq - 0 1";

fn pos(file: i32, rank: i32) -> ChessPosition {
    ChessPosition::new(file, rank).unwrap()
}

fn at(g: &GameState, file: i32, rank: i32) -> Option<Piece> {
    g.board.get_piece_at_pos(&pos(file, rank))
}

fn play(g: &mut GameState, from: (i32, i32), to: (i32, i32)) -> MoveResult {
    let m = g.make_move(&pos(from.0, from.1), &pos(to.0, to.1)).unwrap();
    g.do_move(&m)
}

#[test]
fn starting_position_has_twenty_legal_moves() {
    let g = GameState::default();
    assert_eq!(g.generate_legal_moves().len(), 20);
    let mut total = 0;
    for p in ChessPosition::iter() {
        total += g.generate_legal_moves_for_pos(&p).len();
    }
    assert_eq!(total, 20);
    let f = GameState::from_fen(START).unwrap();
    assert_eq!(f.generate_legal_moves().len(), 20);
    assert_eq!(f.generate_pseudo_legal_moves().len(), 20);
}

#[test]
fn imported_start_matches_default() {
    let a = GameState::default();
    let b = GameState::from_fen(START).unwrap();
    assert_eq!(a.board.squares, b.board.squares);
    assert_eq!(a.active_color, b.active_color);
    assert_eq!(a.castling_availability, b.castling_availability);
    assert_eq!(b.en_passant_target_square, None);
    assert_eq!(b.half_move_clock, 0);
    assert_eq!(b.full_move_no, 1);
    assert_eq!(at(&b, 4, 0), Some(Piece::new(PieceType::King, PlayerType::White)));
    assert_eq!(at(&b, 3, 7), Some(Piece::new(PieceType::Queen, PlayerType::Black)));
    assert_eq!(at(&b, 0, 6), Some(Piece::new(PieceType::Pawn, PlayerType::Black)));
    assert_eq!(at(&b, 4, 4), None);
}

#[test]
fn no_legal_move_leaves_the_mover_in_check() {
    // The e2 bishop is pinned against the king by the e8 rook.
    let fen = "4r1k1/8/8/8/8/8/4B3/4K3 w - - 0 1";
    let g = GameState::from_fen(fen).unwrap();
    let legal = g.generate_legal_moves();
    assert!(!legal.is_empty());
    assert!(g.generate_legal_moves_for_pos(&pos(4, 1)).is_empty());
    assert!(!g.generate_pseudo_legal_moves_for_pos(&pos(4, 1)).is_empty());
    for m in legal {
        let mut after = GameState::from_fen(fen).unwrap();
        assert_ne!(after.do_move(&m), MoveResult::InvalidMove);
        assert!(!after.is_prev_in_check());
    }
}

#[test]
fn en_passant_capture() {
    // Black has just played f7-f5 next to the White pawn on e5.
    let fen = "rnbqkbnr/ppppp1pp/8/4Pp2/8/8/PPPP1PPP/RNBQKBNR w KQkq f6 0 3";
    let mut g = GameState::from_fen(fen).unwrap();
    assert_eq!(g.en_passant_target_square, Some(pos(5, 5)));
    let moves = g.generate_legal_moves_for_pos(&pos(4, 4));
    let ep = moves
        .iter()
        .find(|m| matches!(m.move_kind, ChessMoveKind::EnPassant(_)))
        .copied()
        .unwrap();
    assert_eq!(ep.move_kind, ChessMoveKind::EnPassant(pos(5, 4)));
    assert_eq!(ep.move_vector.to_pos, pos(5, 5));
    assert_eq!(g.do_move(&ep), MoveResult::Normal);
    assert_eq!(at(&g, 4, 4), None);
    assert_eq!(at(&g, 5, 4), None);
    assert_eq!(at(&g, 5, 5), Some(Piece::new(PieceType::Pawn, PlayerType::White)));
    assert_eq!(g.en_passant_target_square, None);
}

#[test]
fn two_square_advance_sets_en_passant_target() {
    let mut g = GameState::default();
    assert_eq!(play(&mut g, (4, 1), (4, 3)), MoveResult::Normal);
    assert_eq!(g.en_passant_target_square, Some(pos(4, 2)));
    assert_eq!(g.active_color, PlayerType::Black);
    assert_eq!(play(&mut g, (6, 7), (5, 5)), MoveResult::Normal);
    assert_eq!(g.en_passant_target_square, None);
}

#[test]
fn castling_both_sides() {
    let fen = "r3k2r/pppppppp/8/8/8/8/PPPPPPPP/R3K2R w KQkq - 0 1";
    let g = GameState::from_fen(fen).unwrap();
    let moves = g.generate_legal_moves_for_pos(&pos(4, 0));
    let short = ChessMove::new(
        ChessMoveKind::Castle(CastleType::Short),
        ChessMoveVector::new(pos(4, 0), pos(6, 0)),
        Piece::new(PieceType::King, PlayerType::White),
    );
    let long = ChessMove::new(
        ChessMoveKind::Castle(CastleType::Long),
        ChessMoveVector::new(pos(4, 0), pos(2, 0)),
        Piece::new(PieceType::King, PlayerType::White),
    );
    assert!(moves.contains(&short));
    assert!(moves.contains(&long));

    let mut a = GameState::from_fen(fen).unwrap();
    assert_eq!(a.do_move(&short), MoveResult::Normal);
    assert_eq!(at(&a, 6, 0), Some(Piece::new(PieceType::King, PlayerType::White)));
    assert_eq!(at(&a, 5, 0), Some(Piece::new(PieceType::Rook, PlayerType::White)));
    assert_eq!(at(&a, 4, 0), None);
    assert_eq!(at(&a, 7, 0), None);
    assert_eq!(a.castling_availability, (false, false, true, true));

    let mut b = GameState::from_fen(fen).unwrap();
    assert_eq!(b.do_move(&long), MoveResult::Normal);
    assert_eq!(at(&b, 2, 0), Some(Piece::new(PieceType::King, PlayerType::White)));
    assert_eq!(at(&b, 3, 0), Some(Piece::new(PieceType::Rook, PlayerType::White)));
    assert_eq!(at(&b, 0, 0), None);
    assert_eq!(b.castling_availability, (false, false, true, true));
}

#[test]
fn castling_refused_through_attacked_square_or_out_of_check() {
    // The f8 rook covers f1: no short castling, long castling still allowed.
    let g = GameState::from_fen("4kr2/8/8/8/8/8/8/R3K2R w KQ - 0 1").unwrap();
    let kinds: Vec<ChessMoveKind> = g
        .generate_legal_moves_for_pos(&pos(4, 0))
        .iter()
        .map(|m| m.move_kind)
        .collect();
    assert!(!kinds.contains(&ChessMoveKind::Castle(CastleType::Short)));
    assert!(kinds.contains(&ChessMoveKind::Castle(CastleType::Long)));
    // In check from the e8 rook: no castling at all.
    let h = GameState::from_fen("k3r3/8/8/8/8/8/8/R3K2R w KQ - 0 1").unwrap();
    assert!(h
        .generate_legal_moves_for_pos(&pos(4, 0))
        .iter()
        .all(|m| !matches!(m.move_kind, ChessMoveKind::Castle(_))));
    // Without the right, no castling either.
    let k = GameState::from_fen("4k3/8/8/8/8/8/8/R3K2R w - - 0 1").unwrap();
    assert!(k
        .generate_pseudo_legal_moves_for_pos(&pos(4, 0))
        .iter()
        .all(|m| !matches!(m.move_kind, ChessMoveKind::Castle(_))));
}

#[test]
fn rook_move_clears_its_castling_right() {
    let mut g = GameState::from_fen("r3k2r/8/8/8/8/8/8/R3K2R w KQkq - 0 1").unwrap();
    assert_eq!(play(&mut g, (7, 0), (7, 3)), MoveResult::Normal);
    assert_eq!(g.castling_availability, (false, true, true, true));
    // Taking the a1 rook clears White's long right too.
    let mut h = GameState::from_fen("r3k2r/8/8/8/8/8/8/R3K2R b KQkq - 0 1").unwrap();
    assert_eq!(play(&mut h, (0, 7), (0, 0)), MoveResult::Normal);
    assert_eq!(h.castling_availability, (true, false, true, false));
}

#[test]
fn fools_mate_is_checkmate() {
    let g = GameState::from_fen("rnb1kbnr/pppp1ppp/8/4p3/6Pq/5P2/PPPPP2P/RNBQKBNR w KQkq - 1 3").unwrap();
    assert_eq!(g.generate_legal_moves().len(), 0);
    assert!(g.is_check());
    assert!(g.is_check_mate());
    assert!(!g.is_stale_mate());
}

#[test]
fn fools_mate_played_out_ends_the_game() {
    let mut g = GameState::default();
    assert_eq!(play(&mut g, (5, 1), (5, 2)), MoveResult::Normal);
    assert_eq!(play(&mut g, (4, 6), (4, 4)), MoveResult::Normal);
    assert_eq!(play(&mut g, (6, 1), (6, 3)), MoveResult::Normal);
    assert_eq!(
        play(&mut g, (3, 7), (7, 3)),
        MoveResult::GameEnd(GameEnd::Checkmate)
    );
    assert_eq!(g.prev_moves.len(), 4);
}

#[test]
fn listed_mate_text_leaves_white_an_answer() {
    // With the pawn still on g2 and the h-pawn gone, White is in check but can
    // block on g3 or take the queen with the h1 rook.
    let g = GameState::from_fen("rnb1kbnr/pppp1ppp/8/4p3/6Pq/8/PPPPP1P1/RNBQKBNR w KQkq - 1 3").unwrap();
    assert!(g.is_check());
    assert!(!g.is_check_mate());
    let ends: Vec<ChessPosition> = g
        .generate_legal_moves()
        .iter()
        .map(|m| m.move_vector.to_pos)
        .collect();
    assert!(ends.contains(&pos(6, 2)));
    assert!(ends.contains(&pos(7, 3)));
}

#[test]
fn stalemate_position() {
    let g = GameState::from_fen("7k/5Q2/6K1/8/8/8/8/8 b - - 0 1").unwrap();
    assert_eq!(g.generate_legal_moves().len(), 0);
    assert!(!g.is_check());
    assert!(g.is_stale_mate());
    assert!(!g.is_check_mate());
}

#[test]
fn move_into_stalemate_ends_the_game() {
    let mut g = GameState::from_fen("7k/8/5QK1/8/8/8/8/8 w - - 0 1").unwrap();
    assert_eq!(play(&mut g, (5, 5), (5, 6)), MoveResult::GameEnd(GameEnd::StaleMate));
}

#[test]
fn king_cannot_step_into_attack() {
    // The a2 rook covers the second rank.
    let g = GameState::from_fen("4k3/8/8/8/8/8/r7/4K3 w - - 0 1").unwrap();
    let ends: Vec<ChessPosition> = g
        .generate_legal_moves_for_pos(&pos(4, 0))
        .iter()
        .map(|m| m.move_vector.to_pos)
        .collect();
    assert_eq!(ends.len(), 2);
    assert!(ends.contains(&pos(3, 0)));
    assert!(ends.contains(&pos(5, 0)));
}

#[test]
fn refused_moves_change_nothing() {
    let mut g = GameState::default();
    let pawn = Piece::new(PieceType::Pawn, PlayerType::White);
    let same = ChessMove::new(ChessMoveKind::Normal, ChessMoveVector::new(pos(4, 1), pos(4, 1)), pawn);
    assert_eq!(g.do_move(&same), MoveResult::InvalidMove);
    let far = ChessMove::new(ChessMoveKind::Normal, ChessMoveVector::new(pos(4, 1), pos(4, 4)), pawn);
    assert_eq!(g.do_move(&far), MoveResult::InvalidMove);
    let off = ChessMove::new(
        ChessMoveKind::Normal,
        ChessMoveVector::new(ChessPosition { file: 9, rank: 1 }, pos(4, 4)),
        pawn,
    );
    assert_eq!(g.do_move(&off), MoveResult::InvalidMove);
    assert_eq!(g.active_color, PlayerType::White);
    assert_eq!(g.prev_moves.len(), 0);
    assert_eq!(g.half_move_clock, 0);
    assert_eq!(at(&g, 4, 1), Some(pawn));
}

#[test]
fn make_move_finds_pseudo_legal_moves() {
    let g = GameState::default();
    let m = g.make_move(&pos(4, 1), &pos(4, 3)).unwrap();
    assert_eq!(m.move_kind, ChessMoveKind::Normal);
    assert_eq!(m.moved_piece, Piece::new(PieceType::Pawn, PlayerType::White));
    assert!(g.make_move(&pos(4, 1), &pos(4, 4)).is_none());
    assert!(g.make_move(&pos(4, 1), &pos(4, 1)).is_none());
    // A Black piece does not move on White's turn.
    assert!(g.make_move(&pos(4, 6), &pos(4, 5)).is_none());
    let n = g.make_move(&pos(6, 0), &pos(5, 2)).unwrap();
    assert_eq!(n.moved_piece.piece_kind, PieceType::Knight);
}

#[test]
fn counters_follow_the_moves() {
    let mut g = GameState::default();
    assert_eq!(play(&mut g, (4, 1), (4, 3)), MoveResult::Normal);
    assert_eq!((g.half_move_clock, g.full_move_no), (1, 1));
    assert_eq!(play(&mut g, (4, 6), (4, 4)), MoveResult::Normal);
    assert_eq!((g.half_move_clock, g.full_move_no), (1, 2));
    assert_eq!(g.prev_moves.len(), 2);
}

#[test]
fn pawn_promotes_on_last_rank() {
    let fen = "8/P6k/8/8/8/8/8/K7 w - - 0 1";
    let g = GameState::from_fen(fen).unwrap();
    let moves = g.generate_legal_moves_for_pos(&pos(0, 6));
    let kinds: Vec<ChessMoveKind> = moves.iter().map(|m| m.move_kind).collect();
    assert_eq!(
        kinds,
        vec![
            ChessMoveKind::Promotion(PieceType::Queen),
            ChessMoveKind::Promotion(PieceType::Rook),
            ChessMoveKind::Promotion(PieceType::Bishop),
            ChessMoveKind::Promotion(PieceType::Knight),
        ]
    );
    let mut h = GameState::from_fen(fen).unwrap();
    let knight = moves[3];
    assert_eq!(h.do_move(&knight), MoveResult::Normal);
    assert_eq!(at(&h, 0, 7), Some(Piece::new(PieceType::Knight, PlayerType::White)));
    assert_eq!(at(&h, 0, 6), None);
}

#[test]
fn capture_records_taken_kind() {
    let g = GameState::from_fen("4k3/8/8/3n4/4P3/8/8/4K3 w - - 0 1").unwrap();
    let moves = g.generate_legal_moves_for_pos(&pos(4, 3));
    assert_eq!(moves.len(), 2);
    assert!(moves.iter().any(|m| m.move_kind == ChessMoveKind::Take(PieceType::Knight)
        && m.move_vector.to_pos == pos(3, 4)));
}

#[test]
fn sliding_pieces_stop_at_the_first_piece() {
    let g = GameState::from_fen("4k3/8/8/8/1p1R2P1/8/8/4K3 w - - 0 1").unwrap();
    // Rook on d4: left to c4 and a take on b4, right to e4 and f4, 4 up, 3 down.
    let moves = g.generate_pseudo_legal_moves_for_pos(&pos(3, 3));
    assert_eq!(moves.len(), 2 + 2 + 4 + 3);
    let takes = moves
        .iter()
        .filter(|m| matches!(m.move_kind, ChessMoveKind::Take(_)))
        .count();
    assert_eq!(takes, 1);
    // Knights jump.
    let s = GameState::default();
    assert_eq!(s.generate_pseudo_legal_moves_for_pos(&pos(1, 0)).len(), 2);
    assert_eq!(s.generate_pseudo_legal_moves_for_pos(&pos(2, 0)).len(), 0);
}

#[test]
fn check_is_seen_for_both_sides() {
    let g = GameState::from_fen("4k3/8/8/8/8/8/8/4K2r w - - 0 1").unwrap();
    assert!(g.is_check());
    let h = GameState::from_fen("4k3/8/8/8/8/8/8/4K2r b - - 0 1").unwrap();
    assert!(!h.is_check());
    assert!(h.is_prev_in_check());
}

#[test]
fn game_end_names() {
    assert_eq!(GameEnd::Checkmate.to_string(), "Checkmate");
    assert_eq!(GameEnd::StaleMate.to_string(), "Stalemate");
    assert_eq!(GameEnd::Draw.to_string(), "Draw");
}

#[test]
fn exported_text_after_a_move() {
    let mut g = GameState::default();
    assert_eq!(g.to_fen(), START);
    assert_eq!(play(&mut g, (4, 1), (4, 3)), MoveResult::Normal);
    let text = g.to_fen();
    assert_eq!(text, "rnbqkbnr/pppppppp/8/8/4P3/8/PPPP1PPP/RNBQKBNR b KQkq e3 1 1");
    let back = GameState::from_fen(&text).unwrap();
    assert_eq!(back.board.squares, g.board.squares);
    assert_eq!(back.en_passant_target_square, g.en_passant_target_square);
}

#[test]
fn board_survives_export_after_every_legal_move() {
    let fen = "r3k2r/pp1n1ppp/8/2pPp3/8/8/PPP2PPP/R3K2R w KQkq c6 0 12";
    let g = GameState::from_fen(fen).unwrap();
    let moves = g.generate_legal_moves();
    assert!(moves.len() > 20);
    for m in moves {
        let mut after = GameState::from_fen(fen).unwrap();
        assert_ne!(after.do_move(&m), MoveResult::InvalidMove);
        let back = GameState::from_fen(&after.to_fen()).unwrap();
        assert_eq!(back.board.squares, after.board.squares);
        assert_eq!(back.active_color, after.active_color);
        assert_eq!(back.castling_availability, after.castling_availability);
    }
}

#[test]
fn export_writes_rights_and_counters() {
    let g = GameState::from_fen("4k3/8/8/8/8/8/8/R3K3 b Qk - 17 42").unwrap();
    assert_eq!(g.to_fen(), "4k3/8/8/8/8/8/8/R3K3 b Qk - 17 42");
    let h = GameState::from_fen("8/8/8/8/8/8/8/8 w - - 0 1").unwrap();
    assert_eq!(h.to_fen(), "8/8/8/8/8/8/8/8 w - - 0 1");
}
