//! The rules of chess as spec functions over a model of the game position.
use vstd::prelude::*;

use crate::board::{board_after, idx};
use crate::move_history::{CastleType, ChessMove, ChessMoveKind, ChessMoveVector};
use crate::position::{
    on_board, opponent, square_of_index, ChessPosition, Piece, PieceType, PlayerType,
};

verus! {

/// What the rules read of a game: the board (row-major, 64 squares), the side to
/// move, the castling rights (White short, White long, Black short, Black long)
/// and the en passant target square.
pub struct Situation {
    pub board: Seq<Option<Piece>>,
    pub active: PlayerType,
    pub castling: (bool, bool, bool, bool),
    pub en_passant: Option<ChessPosition>,
}

pub open spec fn sq(file: int, rank: int) -> ChessPosition {
    ChessPosition { file: file as i32, rank: rank as i32 }
}

pub open spec fn mk(kind: ChessMoveKind, from: ChessPosition, to: ChessPosition, pc: Piece) -> ChessMove {
    ChessMove { move_kind: kind, move_vector: ChessMoveVector { from_pos: from, to_pos: to }, moved_piece: pc }
}

/// Moves along direction `d` from `from`, starting one step past `cur`, for at most
/// `n` steps: every empty square, then the first occupied square if it holds an
/// enemy piece.
pub open spec fn ray(
    b: Seq<Option<Piece>>,
    pc: Piece,
    from: ChessPosition,
    cur: (int, int),
    d: (i32, i32),
    n: nat,
) -> Seq<ChessMove>
    decreases n,
{
    if n == 0 {
        Seq::empty()
    } else {
        let f = cur.0 + d.0;
        let r = cur.1 + d.1;
        if !on_board(f, r) {
            Seq::empty()
        } else {
            match b[idx(f, r)] {
                None => seq![mk(ChessMoveKind::Normal, from, sq(f, r), pc)] + ray(b, pc, from, (f, r), d, (n - 1) as nat),
                Some(q) => if q.player_kind != pc.player_kind {
                    seq![mk(ChessMoveKind::Take(q.piece_kind), from, sq(f, r), pc)]
                } else {
                    Seq::empty()
                },
            }
        }
    }
}

/// The rays of all directions in `dirs`, in order.
pub open spec fn slides(
    b: Seq<Option<Piece>>,
    pc: Piece,
    from: ChessPosition,
    dirs: Seq<(i32, i32)>,
    n: nat,
) -> Seq<ChessMove>
    decreases dirs.len(),
{
    if dirs.len() == 0 {
        Seq::empty()
    } else {
        slides(b, pc, from, dirs.drop_last(), n) + ray(
            b,
            pc,
            from,
            (from.file as int, from.rank as int),
            dirs.last(),
            n,
        )
    }
}

pub open spec fn rook_dirs() -> Seq<(i32, i32)> {
    seq![(1i32, 0i32), (0i32, -1i32), (-1i32, 0i32), (0i32, 1i32)]
}

pub open spec fn bishop_dirs() -> Seq<(i32, i32)> {
    seq![(1i32, 1i32), (1i32, -1i32), (-1i32, -1i32), (-1i32, 1i32)]
}

pub open spec fn royal_dirs() -> Seq<(i32, i32)> {
    seq![(1i32, 0i32), (0i32, -1i32), (-1i32, 0i32), (0i32, 1i32), (1i32, 1i32), (1i32, -1i32), (-1i32, -1i32), (-1i32, 1i32)]
}

pub open spec fn knight_dirs() -> Seq<(i32, i32)> {
    seq![(1i32, 2i32), (2i32, 1i32), (2i32, -1i32), (1i32, -2i32), (-1i32, -2i32), (-2i32, -1i32), (-2i32, 1i32), (-1i32, 2i32)]
}

/// Rank direction in which `c`'s pawns advance.
pub open spec fn pawn_step(c: PlayerType) -> int {
    match c {
        PlayerType::White => 1,
        PlayerType::Black => -1,
    }
}

/// Rank from which `c`'s pawns may advance two squares.
pub open spec fn pawn_start_rank(c: PlayerType) -> int {
    match c {
        PlayerType::White => 1,
        PlayerType::Black => 6,
    }
}

/// Rank on which `c`'s pawns promote.
pub open spec fn last_rank(c: PlayerType) -> int {
    match c {
        PlayerType::White => 7,
        PlayerType::Black => 0,
    }
}

/// `c`'s back rank, where its king and rooks start.
pub open spec fn home_rank(c: PlayerType) -> int {
    match c {
        PlayerType::White => 0,
        PlayerType::Black => 7,
    }
}

/// The four promotions of a pawn going from `from` to `to`.
pub open spec fn promotions(from: ChessPosition, to: ChessPosition, pc: Piece) -> Seq<ChessMove> {
    seq![
        mk(ChessMoveKind::Promotion(PieceType::Queen), from, to, pc),
        mk(ChessMoveKind::Promotion(PieceType::Rook), from, to, pc),
        mk(ChessMoveKind::Promotion(PieceType::Bishop), from, to, pc),
        mk(ChessMoveKind::Promotion(PieceType::Knight), from, to, pc),
    ]
}

/// A pawn move onto `to` of kind `kind`, or its promotions if `to` is on the last rank.
pub open spec fn pawn_arrival(kind: ChessMoveKind, from: ChessPosition, to: ChessPosition, pc: Piece) -> Seq<ChessMove> {
    if to.rank == last_rank(pc.player_kind) {
        promotions(from, to, pc)
    } else {
        seq![mk(kind, from, to, pc)]
    }
}

/// Forward moves of a pawn: one square if it is empty, and two from the start
/// rank if both squares are empty.
pub open spec fn pawn_pushes(s: Situation, from: ChessPosition, pc: Piece) -> Seq<ChessMove> {
    let c = pc.player_kind;
    let f = from.file as int;
    let r1 = from.rank + pawn_step(c);
    let r2 = from.rank + 2 * pawn_step(c);
    if on_board(f, r1) && s.board[idx(f, r1)] is None {
        pawn_arrival(ChessMoveKind::Normal, from, sq(f, r1), pc) + if from.rank == pawn_start_rank(c)
            && on_board(f, r2) && s.board[idx(f, r2)] is None {
            seq![mk(ChessMoveKind::Normal, from, sq(f, r2), pc)]
        } else {
            Seq::empty()
        }
    } else {
        Seq::empty()
    }
}

/// A pawn's diagonal move toward file offset `df`: a capture of an enemy piece,
/// or an en passant capture onto the empty target square, taking the pawn
/// beside the mover.
pub open spec fn pawn_capture(s: Situation, from: ChessPosition, pc: Piece, df: int) -> Seq<ChessMove> {
    let f = from.file + df;
    let r = from.rank + pawn_step(pc.player_kind);
    if !on_board(f, r) {
        Seq::empty()
    } else {
        match s.board[idx(f, r)] {
            Some(q) => if q.player_kind != pc.player_kind {
                pawn_arrival(ChessMoveKind::Take(q.piece_kind), from, sq(f, r), pc)
            } else {
                Seq::empty()
            },
            None => if s.en_passant == Some(sq(f, r)) {
                seq![mk(ChessMoveKind::EnPassant(sq(f, from.rank as int)), from, sq(f, r), pc)]
            } else {
                Seq::empty()
            },
        }
    }
}

pub open spec fn pawn_moves(s: Situation, from: ChessPosition, pc: Piece) -> Seq<ChessMove> {
    pawn_pushes(s, from, pc) + pawn_capture(s, from, pc, -1) + pawn_capture(s, from, pc, 1)
}

/// Castling right of `c` on side `t`.
pub open spec fn castle_right(s: Situation, c: PlayerType, t: CastleType) -> bool {
    match (c, t) {
        (PlayerType::White, CastleType::Short) => s.castling.0,
        (PlayerType::White, CastleType::Long) => s.castling.1,
        (PlayerType::Black, CastleType::Short) => s.castling.2,
        (PlayerType::Black, CastleType::Long) => s.castling.3,
    }
}

/// Whether squares `lo..hi` of rank `r` are all empty.
pub open spec fn empty_between(b: Seq<Option<Piece>>, r: int, lo: int, hi: int) -> bool {
    forall|f: int| lo <= f < hi ==> #[trigger] b[idx(f, r)] is None
}

/// The castling move of side `t` for the king `pc` on `from`, if offered: the right
/// is held, the king stands on its home square, its own rook on the corner, and
/// every square between them is empty.
pub open spec fn castle_move(s: Situation, from: ChessPosition, pc: Piece, t: CastleType) -> Seq<ChessMove> {
    let c = pc.player_kind;
    let hr = home_rank(c);
    let (corner, lo, hi, k_to) = match t {
        CastleType::Short => (7int, 5int, 7int, 6int),
        CastleType::Long => (0int, 1int, 4int, 2int),
    };
    if castle_right(s, c, t) && from == sq(4, hr) && s.board[idx(corner, hr)] == Some(
        Piece { piece_kind: PieceType::Rook, player_kind: c },
    ) && empty_between(s.board, hr, lo, hi) {
        seq![mk(ChessMoveKind::Castle(t), from, sq(k_to, hr), pc)]
    } else {
        Seq::empty()
    }
}

/// Pseudo-legal moves of the piece on `from`: those its movement pattern and the
/// occupancy of the board allow, whether or not they leave its own king attacked.
/// Empty unless the piece belongs to the side to move.
pub open spec fn pseudo_moves_from(s: Situation, from: ChessPosition) -> Seq<ChessMove> {
    match s.board[from.index()] {
        None => Seq::empty(),
        Some(pc) => if pc.player_kind != s.active {
            Seq::empty()
        } else {
            match pc.piece_kind {
                PieceType::Pawn => pawn_moves(s, from, pc),
                PieceType::Rook => slides(s.board, pc, from, rook_dirs(), 7),
                PieceType::Knight => slides(s.board, pc, from, knight_dirs(), 1),
                PieceType::Bishop => slides(s.board, pc, from, bishop_dirs(), 7),
                PieceType::Queen => slides(s.board, pc, from, royal_dirs(), 7),
                PieceType::King => slides(s.board, pc, from, royal_dirs(), 1) + castle_move(
                    s,
                    from,
                    pc,
                    CastleType::Short,
                ) + castle_move(s, from, pc, CastleType::Long),
            }
        },
    }
}

/// Pseudo-legal moves from the squares with index below `n`, square by square.
pub open spec fn pseudo_moves_upto(s: Situation, n: int) -> Seq<ChessMove>
    decreases n,
{
    if n <= 0 {
        Seq::empty()
    } else {
        pseudo_moves_upto(s, n - 1) + pseudo_moves_from(s, square_of_index(n - 1))
    }
}

/// All pseudo-legal moves of the side to move.
pub open spec fn all_pseudo_moves(s: Situation) -> Seq<ChessMove> {
    pseudo_moves_upto(s, 64)
}

/// The situation with `c` to move.
pub open spec fn with_active(s: Situation, c: PlayerType) -> Situation {
    Situation { active: c, ..s }
}

/// Whether some pseudo-legal move of `by` ends on `t`.
pub open spec fn attacked(s: Situation, t: ChessPosition, by: PlayerType) -> bool {
    let ms = all_pseudo_moves(with_active(s, by));
    exists|j: int| 0 <= j < ms.len() && (#[trigger] ms[j]).move_vector.to_pos == t
}

/// Whether a king of `c` stands on a square that the other side attacks.
pub open spec fn in_check(s: Situation, c: PlayerType) -> bool {
    exists|i: int|
        0 <= i < 64 && #[trigger] s.board[i] == Some(Piece { piece_kind: PieceType::King, player_kind: c })
            && attacked(s, square_of_index(i), opponent(c))
}

/// Whether `m` starts or ends on `(f, r)`.
pub open spec fn touches(m: ChessMove, f: int, r: int) -> bool {
    m.move_vector.from_pos == sq(f, r) || m.move_vector.to_pos == sq(f, r)
}

/// Castling rights after `m`: a right is lost once its king's or rook's home
/// square is left or moved onto.
pub open spec fn rights_after(c: (bool, bool, bool, bool), m: ChessMove) -> (bool, bool, bool, bool) {
    (
        c.0 && !touches(m, 4, 0) && !touches(m, 7, 0),
        c.1 && !touches(m, 4, 0) && !touches(m, 0, 0),
        c.2 && !touches(m, 4, 7) && !touches(m, 7, 7),
        c.3 && !touches(m, 4, 7) && !touches(m, 0, 7),
    )
}

/// En passant target after `m`: the square a pawn passed over on a two-square
/// advance, and none after any other move.
pub open spec fn en_passant_after(m: ChessMove) -> Option<ChessPosition> {
    let from = m.move_vector.from_pos;
    let to = m.move_vector.to_pos;
    if m.moved_piece.piece_kind == PieceType::Pawn && m.move_kind == ChessMoveKind::Normal
        && from.file == to.file && (to.rank - from.rank == 2 || from.rank - to.rank == 2) {
        Some(sq(from.file as int, (from.rank + to.rank) / 2))
    } else {
        None
    }
}

/// The situation after `m` is played, taken as given.
pub open spec fn play(s: Situation, m: ChessMove) -> Situation {
    Situation {
        board: board_after(s.board, m),
        active: opponent(s.active),
        castling: rights_after(s.castling, m),
        en_passant: en_passant_after(m),
    }
}

/// The one-square king move onto the square a castling king passes over.
pub open spec fn castle_transit(m: ChessMove) -> ChessMove {
    let from = m.move_vector.from_pos;
    let f = match m.move_kind {
        ChessMoveKind::Castle(CastleType::Long) => 3int,
        _ => 5int,
    };
    mk(ChessMoveKind::Normal, from, sq(f, from.rank as int), m.moved_piece)
}

/// A pseudo-legal move is legal if it leaves no king of the mover attacked; a
/// castling move must moreover start out of check and pass over no attacked square.
pub open spec fn is_legal(s: Situation, m: ChessMove) -> bool {
    &&& !in_check(play(s, m), s.active)
    &&& (m.move_kind is Castle ==> !in_check(s, s.active) && !in_check(
        play(s, castle_transit(m)),
        s.active,
    ))
}

/// The legal moves among `ms`, in order.
pub open spec fn legal_filter(s: Situation, ms: Seq<ChessMove>) -> Seq<ChessMove>
    decreases ms.len(),
{
    if ms.len() == 0 {
        Seq::empty()
    } else {
        legal_filter(s, ms.drop_last()) + if is_legal(s, ms.last()) {
            seq![ms.last()]
        } else {
            Seq::empty()
        }
    }
}

/// Legal moves of the piece on `from`.
pub open spec fn legal_moves_from(s: Situation, from: ChessPosition) -> Seq<ChessMove> {
    legal_filter(s, pseudo_moves_from(s, from))
}

/// Legal moves from the squares with index below `n`, square by square.
pub open spec fn legal_moves_upto(s: Situation, n: int) -> Seq<ChessMove>
    decreases n,
{
    if n <= 0 {
        Seq::empty()
    } else {
        legal_moves_upto(s, n - 1) + legal_moves_from(s, square_of_index(n - 1))
    }
}

/// All legal moves of the side to move.
pub open spec fn all_legal_moves(s: Situation) -> Seq<ChessMove> {
    legal_moves_upto(s, 64)
}

pub open spec fn is_checkmate(s: Situation) -> bool {
    all_legal_moves(s).len() == 0 && in_check(s, s.active)
}

pub open spec fn is_stalemate(s: Situation) -> bool {
    all_legal_moves(s).len() == 0 && !in_check(s, s.active)
}

} // verus!
