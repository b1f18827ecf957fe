use chess::board::ChessBoard;
use chess::client::GameClient;
use chess::clock::Clock;
use chess::game_modes::{GameMode, GameType};
use chess::move_history::{CastleType, ChessMove, ChessMoveKind, ChessMoveVector, MoveHistory};
use chess::position::{ChessPosition, Piece, PieceType, PlayerType};

fn pos(file: i32, rank: i32) -> ChessPosition {
    ChessPosition::new(file, rank).unwrap()
}

#[test]
fn positions_are_checked_on_construction() {
    assert_eq!(ChessPosition::new(0, 7), Some(ChessPosition { file: 0, rank: 7 }));
    assert_eq!(ChessPosition::new(8, 0), None);
    assert_eq!(ChessPosition::new(3, -1), None);
    assert_eq!(ChessPosition::from_tuple((7, 7)), Some(pos(7, 7)));
    assert_eq!(ChessPosition::from_tuple((8, 1)), None);
    assert_eq!(pos(2, 3).add(&ChessPosition { file: 1, rank: -3 }), Some(pos(3, 0)));
    assert_eq!(pos(2, 3).add(&ChessPosition { file: 6, rank: 0 }), None);
    assert_eq!(pos(6, 6).add_offset(&(1, 1)), Some(pos(7, 7)));
    assert_eq!(pos(6, 6).add_offset(&(2, 1)), None);
    assert_eq!(pos(1, 3).mul(2), Some(pos(2, 6)));
    assert_eq!(pos(1, 3).mul(3), None);
    assert_eq!(ChessPosition { file: i32::MAX, rank: 0 }.add_offset(&(1, 0)), None);
}

#[test]
fn position_arithmetic() {
    assert_eq!(pos(1, 6).abs_rank_diff(&pos(4, 2)), 4);
    assert_eq!(pos(1, 6).abs_file_diff(&pos(4, 2)), 3);
    assert_eq!(pos(1, 6).as_tuple(), (1, 6));
    assert_eq!(pos(1, 6).to_flipped(), pos(1, 1));
    assert_eq!(pos(1, 6).adjust_for_current_player(PlayerType::White), pos(1, 1));
    assert_eq!(pos(1, 6).adjust_for_current_player(PlayerType::Black), pos(1, 6));
}

#[test]
fn all_squares_are_listed_once() {
    let all = ChessPosition::iter();
    assert_eq!(all.len(), 64);
    assert_eq!(all[0], pos(0, 0));
    assert_eq!(all[1], pos(0, 1));
    assert_eq!(all[8], pos(1, 0));
    assert_eq!(all[63], pos(7, 7));
}

#[test]
fn board_applies_each_move_kind() {
    let wp = Piece::new(PieceType::Pawn, PlayerType::White);
    let bp = Piece::new(PieceType::Pawn, PlayerType::Black);
    let mut b = ChessBoard::empty();
    b.squares[4 * 8 + 4] = Some(wp);
    b.squares[4 * 8 + 3] = Some(bp);
    let ep = ChessMove::new(
        ChessMoveKind::EnPassant(pos(3, 4)),
        ChessMoveVector::new(pos(4, 4), pos(3, 5)),
        wp,
    );
    b.perform_move(&ep);
    assert_eq!(b.get_piece_at_pos(&pos(3, 5)), Some(wp));
    assert_eq!(b.get_piece_at_pos(&pos(3, 4)), None);
    assert_eq!(b.get_piece_at_pos(&pos(4, 4)), None);

    let bk = Piece::new(PieceType::King, PlayerType::Black);
    let br = Piece::new(PieceType::Rook, PlayerType::Black);
    b.squares[7 * 8 + 4] = Some(bk);
    b.squares[7 * 8] = Some(br);
    let long = ChessMove::new(
        ChessMoveKind::Castle(CastleType::Long),
        ChessMoveVector::new(pos(4, 7), pos(2, 7)),
        bk,
    );
    b.perform_move(&long);
    assert_eq!(b.get_piece_at_pos(&pos(2, 7)), Some(bk));
    assert_eq!(b.get_piece_at_pos(&pos(3, 7)), Some(br));
    assert_eq!(b.get_piece_at_pos(&pos(0, 7)), None);
    assert_eq!(b.get_piece_at_pos(&pos(4, 7)), None);

    let promote = ChessMove::new(
        ChessMoveKind::Promotion(PieceType::Queen),
        ChessMoveVector::new(pos(3, 5), pos(3, 6)),
        wp,
    );
    b.perform_move(&promote);
    assert_eq!(b.get_piece_at_pos(&pos(3, 6)), Some(Piece::new(PieceType::Queen, PlayerType::White)));
    assert_eq!(b.get_piece_at_pos(&pos(3, 5)), None);
    let _ = MoveHistory {};
}

#[test]
fn time_controls() {
    assert_eq!(GameType::Bullet.time_control(), 60);
    assert_eq!(GameType::Blitz.time_control(), 300);
    assert_eq!(GameType::Rapid.time_control(), 600);
    assert_eq!(GameType::Classical.time_control(), 1800);
    assert_eq!(GameType::Classical.to_string(), "Classical");
    assert_eq!(GameType::Bullet.to_string(), "Bullet");
}

#[test]
fn clock_charges_the_side_to_move() {
    let mut c = Clock::starting_at(GameType::Bullet, 1000);
    assert_eq!((c.white_time, c.black_time), (60, 60));
    assert_eq!(c.update_time_at(PlayerType::White, 1010), Some(()));
    assert_eq!((c.white_time, c.black_time, c.last_update), (50, 60, 1010));
    assert_eq!(c.update_time_at(PlayerType::Black, 1005), Some(()));
    assert_eq!((c.white_time, c.black_time, c.last_update), (50, 60, 1010));
    assert_eq!(c.update_time_at(PlayerType::Black, 1070), Some(()));
    assert_eq!((c.white_time, c.black_time), (50, 0));
    assert_eq!(c.update_time_at(PlayerType::Black, 1071), None);
    assert_eq!((c.black_time, c.last_update), (0, 1071));
}

#[test]
fn clock_from_wall_time() {
    let mut c = Clock::from_game_type(GameType::Rapid);
    assert_eq!((c.white_time, c.black_time), (600, 600));
    assert_eq!(c.update_time(PlayerType::White), Some(()));
    assert!(c.white_time <= 600);
    assert_eq!(c.black_time, 600);
    let d = Clock::default();
    assert_eq!((d.white_time, d.black_time), (300, 300));
}

#[test]
fn client_starts_a_local_game() {
    let c = GameClient::new_local(GameType::Blitz);
    assert_eq!(c.game_type, Some(GameType::Blitz));
    assert_eq!(c.game_mode, Some(GameMode::Local));
    assert!(c.has_started);
    assert_eq!(c.clock.white_time, 300);
    let ends = c.possible_move_ends(&pos(4, 1));
    assert_eq!(ends, vec![pos(4, 2), pos(4, 3)]);
    assert!(c.possible_move_ends(&pos(4, 6)).is_empty());
    let d = GameClient::default();
    assert!(!d.has_started);
    assert_eq!(d.game_mode, None);
}

#[test]
fn client_imports_positions() {
    let mut c = GameClient::new_local(GameType::Rapid);
    assert_eq!(c.update_fen("4k3/8/8/8/8/8/8/4K3 b - - 0 40"), Some(()));
    assert_eq!(c.game_state.active_color, PlayerType::Black);
    assert_eq!(c.game_state.full_move_no, 40);
    assert_eq!(c.update_fen("not a position"), None);
    assert_eq!(c.game_state.full_move_no, 40);
    assert_eq!(c.possible_move_ends(&pos(4, 7)).len(), 5);
}
