//! What castling and en passant do, proved of every such legal move.
use vstd::prelude::*;

use crate::board::{castle_files, idx};
use crate::game::lemma_filter_within;
use crate::move_history::{CastleType, ChessMove, ChessMoveKind};
use crate::position::{on_board, ChessPosition, Piece, PieceType};
use crate::rules::{
    castle_move, castle_right, home_rank, legal_moves_from, pawn_arrival, pawn_capture, pawn_moves,
    pawn_pushes, play, pseudo_moves_from, ray, slides, sq, Situation,
};

verus! {

/// Whether a move is a plain move or a capture.
pub open spec fn plain(m: ChessMove) -> bool {
    m.move_kind is Normal || m.move_kind is Take
}

proof fn lemma_ray_plain(b: Seq<Option<Piece>>, pc: Piece, from: ChessPosition, cur: (int, int), d: (i32, i32), n: nat)
    ensures
        forall|i: int| 0 <= i < ray(b, pc, from, cur, d, n).len() ==> plain(#[trigger] ray(b, pc, from, cur, d, n)[i]),
    decreases n,
{
    if n > 0 {
        let f = cur.0 + d.0;
        let r = cur.1 + d.1;
        lemma_ray_plain(b, pc, from, (f, r), d, (n - 1) as nat);
        let all = ray(b, pc, from, cur, d, n);
        let rest = ray(b, pc, from, (f, r), d, (n - 1) as nat);
        if on_board(f, r) && b[idx(f, r)] is None {
            let first = seq![crate::rules::mk(ChessMoveKind::Normal, from, sq(f, r), pc)];
            assert(all == first + rest);
            assert forall|i: int| 0 <= i < all.len() implies plain(#[trigger] all[i]) by {
                if i > 0 {
                    assert(all[i] == rest[i - 1]);
                }
            }
        }
    }
}

proof fn lemma_slides_plain(b: Seq<Option<Piece>>, pc: Piece, from: ChessPosition, dirs: Seq<(i32, i32)>, n: nat)
    ensures
        forall|i: int| 0 <= i < slides(b, pc, from, dirs, n).len() ==> plain(#[trigger] slides(b, pc, from, dirs, n)[i]),
    decreases dirs.len(),
{
    if dirs.len() > 0 {
        lemma_slides_plain(b, pc, from, dirs.drop_last(), n);
        lemma_ray_plain(b, pc, from, (from.file as int, from.rank as int), dirs.last(), n);
        let a = slides(b, pc, from, dirs.drop_last(), n);
        let c = ray(b, pc, from, (from.file as int, from.rank as int), dirs.last(), n);
        assert forall|i: int| 0 <= i < (a + c).len() implies plain(#[trigger] (a + c)[i]) by {
            if i < a.len() {
                assert((a + c)[i] == a[i]);
            } else {
                assert((a + c)[i] == c[i - a.len()]);
            }
        }
    }
}

/// A castling move among the pseudo-legal moves is the one `castle_move` offers.
proof fn lemma_castle_origin(s: Situation, from: ChessPosition, m: ChessMove, t: CastleType)
    requires
        pseudo_moves_from(s, from).contains(m),
        m.move_kind == ChessMoveKind::Castle(t),
    ensures
        castle_move(s, from, m.moved_piece, t) == seq![m],
        m.moved_piece == (Piece { piece_kind: PieceType::King, player_kind: s.active }),
{
    let ms = pseudo_moves_from(s, from);
    let k = choose|k: int| 0 <= k < ms.len() && ms[k] == m;
    let pc = s.board[from.index()].unwrap();
    match pc.piece_kind {
        PieceType::Pawn => {
            lemma_pawn_kinds(s, from, pc);
            assert(!(ms[k].move_kind is Castle));
        },
        PieceType::King => {
            let a = slides(s.board, pc, from, crate::rules::royal_dirs(), 1);
            let cs = castle_move(s, from, pc, CastleType::Short);
            let cl = castle_move(s, from, pc, CastleType::Long);
            lemma_slides_plain(s.board, pc, from, crate::rules::royal_dirs(), 1);
            assert(ms == a + cs + cl);
            if k < a.len() {
                assert(ms[k] == a[k]);
                assert(plain(a[k]));
            } else if k < a.len() + cs.len() {
                assert(ms[k] == cs[k - a.len()]);
            } else {
                assert(ms[k] == cl[k - a.len() - cs.len()]);
            }
        },
        _ => {
            lemma_slides_plain(s.board, pc, from, crate::rules::rook_dirs(), 7);
            lemma_slides_plain(s.board, pc, from, crate::rules::knight_dirs(), 1);
            lemma_slides_plain(s.board, pc, from, crate::rules::bishop_dirs(), 7);
            lemma_slides_plain(s.board, pc, from, crate::rules::royal_dirs(), 7);
            assert(plain(ms[k]));
        },
    }
}

/// Kinds of pawn moves: plain moves, captures, promotions and en passant captures,
/// the last only from `pawn_capture`.
proof fn lemma_pawn_kinds(s: Situation, from: ChessPosition, pc: Piece)
    ensures
        forall|i: int| 0 <= i < pawn_moves(s, from, pc).len() ==> !((#[trigger] pawn_moves(s, from, pc)[i]).move_kind is Castle),
{
    let a = pawn_pushes(s, from, pc);
    let b = pawn_capture(s, from, pc, -1);
    let c = pawn_capture(s, from, pc, 1);
    assert forall|i: int| 0 <= i < (a + b + c).len() implies !((#[trigger] (a + b + c)[i]).move_kind is Castle) by {
        if i < a.len() {
            assert((a + b + c)[i] == a[i]);
        } else if i < a.len() + b.len() {
            assert((a + b + c)[i] == b[i - a.len()]);
        } else {
            assert((a + b + c)[i] == c[i - a.len() - b.len()]);
        }
    }
}

/// Castling moves king and rook together: after any legal castling move of the
/// side to move, its king stands on the castling square, its rook beside it on the
/// inner side, their home squares are empty, and both castling rights of that
/// side are gone.
pub proof fn lemma_castling_moves_king_and_rook(s: Situation, from: ChessPosition, m: ChessMove, t: CastleType)
    requires
        s.board.len() == 64,
        legal_moves_from(s, from).contains(m),
        m.move_kind == ChessMoveKind::Castle(t),
    ensures
        ({
            let c = s.active;
            let hr = home_rank(c);
            let (k_to, r_from, r_to) = castle_files(t);
            let after = play(s, m);
            &&& after.board[idx(k_to, hr)] == Some(Piece { piece_kind: PieceType::King, player_kind: c })
            &&& after.board[idx(r_to, hr)] == Some(Piece { piece_kind: PieceType::Rook, player_kind: c })
            &&& after.board[idx(4, hr)] is None
            &&& after.board[idx(r_from, hr)] is None
            &&& !castle_right(after, c, CastleType::Short)
            &&& !castle_right(after, c, CastleType::Long)
        }),
{
    lemma_filter_within(s, pseudo_moves_from(s, from));
    let lm = legal_moves_from(s, from);
    let k = choose|k: int| 0 <= k < lm.len() && lm[k] == m;
    assert(pseudo_moves_from(s, from).contains(lm[k]));
    lemma_castle_origin(s, from, m, t);
    let pc = m.moved_piece;
    assert(castle_move(s, from, pc, t).len() == 1);
    assert(castle_move(s, from, pc, t)[0] == m);
}

/// What an en passant move among the moves of `pawn_capture` looks like.
proof fn lemma_capture_en_passant(s: Situation, from: ChessPosition, pc: Piece, df: int, m: ChessMove, c: ChessPosition)
    requires
        pawn_capture(s, from, pc, df).contains(m),
        m.move_kind == ChessMoveKind::EnPassant(c),
        df == 1 || df == -1,
    ensures
        m.move_vector.to_pos.file == from.file + df,
        s.en_passant == Some(m.move_vector.to_pos),
        m.move_vector.to_pos.valid(),
        s.board[m.move_vector.to_pos.index()] is None,
        m.move_vector.from_pos == from,
        m.moved_piece == pc,
        c == sq(m.move_vector.to_pos.file as int, from.rank as int),
        m.move_vector.to_pos.rank == from.rank + crate::rules::pawn_step(pc.player_kind),
{
    let f = from.file + df;
    let r = from.rank + crate::rules::pawn_step(pc.player_kind);
    let ms = pawn_capture(s, from, pc, df);
    let k = choose|k: int| 0 <= k < ms.len() && ms[k] == m;
    if on_board(f, r) {
        if s.board[idx(f, r)] is Some {
            let q = s.board[idx(f, r)].unwrap();
            if q.player_kind != pc.player_kind {
                assert(ms == pawn_arrival(ChessMoveKind::Take(q.piece_kind), from, sq(f, r), pc));
                assert(!(ms[k].move_kind is EnPassant));
            }
        }
    }
}

/// An en passant capture takes the pawn that has just passed: after any legal en
/// passant move, the capturing pawn stands on the en passant target square, and
/// both its starting square and the square of the taken pawn (beside the start,
/// on the target's file) are empty.
pub proof fn lemma_en_passant_takes_passed_pawn(s: Situation, from: ChessPosition, m: ChessMove, c: ChessPosition)
    requires
        s.board.len() == 64,
        from.valid(),
        legal_moves_from(s, from).contains(m),
        m.move_kind == ChessMoveKind::EnPassant(c),
    ensures
        s.en_passant == Some(m.move_vector.to_pos),
        m.move_vector.from_pos == from,
        m.moved_piece == (Piece { piece_kind: PieceType::Pawn, player_kind: s.active }),
        c == sq(m.move_vector.to_pos.file as int, from.rank as int),
        play(s, m).board[m.move_vector.to_pos.index()] == Some(m.moved_piece),
        play(s, m).board[from.index()] is None,
        play(s, m).board[c.index()] is None,
{
    lemma_filter_within(s, pseudo_moves_from(s, from));
    let lm = legal_moves_from(s, from);
    let k = choose|k: int| 0 <= k < lm.len() && lm[k] == m;
    assert(pseudo_moves_from(s, from).contains(lm[k]));
    let ms = pseudo_moves_from(s, from);
    let j = choose|j: int| 0 <= j < ms.len() && ms[j] == m;
    let pc = s.board[from.index()].unwrap();
    match pc.piece_kind {
        PieceType::Pawn => {
            let a = pawn_pushes(s, from, pc);
            let b = pawn_capture(s, from, pc, -1);
            let d = pawn_capture(s, from, pc, 1);
            assert(ms == a + b + d);
            if j < a.len() {
                assert(ms[j] == a[j]);
                let f = from.file as int;
                let r1 = from.rank + crate::rules::pawn_step(pc.player_kind);
                if on_board(f, r1) && s.board[idx(f, r1)] is None {
                    let one = pawn_arrival(ChessMoveKind::Normal, from, sq(f, r1), pc);
                    if j < one.len() {
                        assert(a[j] == one[j]);
                    } else {
                        assert(a[j] == (a.subrange(one.len() as int, a.len() as int))[j - one.len()]);
                    }
                }
                assert(!(a[j].move_kind is EnPassant));
            } else if j < a.len() + b.len() {
                assert(ms[j] == b[j - a.len()]);
                assert(b.contains(m));
                lemma_capture_en_passant(s, from, pc, -1, m, c);
            } else {
                assert(ms[j] == d[j - a.len() - b.len()]);
                assert(d.contains(m));
                lemma_capture_en_passant(s, from, pc, 1, m, c);
            }
            let to = m.move_vector.to_pos;
            assert(to.index() != from.index());
            assert(to.index() != c.index());
            assert(from.index() != c.index());
            assert(0 <= c.index() < 64);
        },
        PieceType::King => {
            let a = slides(s.board, pc, from, crate::rules::royal_dirs(), 1);
            let cs = castle_move(s, from, pc, CastleType::Short);
            let cl = castle_move(s, from, pc, CastleType::Long);
            lemma_slides_plain(s.board, pc, from, crate::rules::royal_dirs(), 1);
            assert(ms == a + cs + cl);
            if j < a.len() {
                assert(ms[j] == a[j]);
                assert(plain(a[j]));
            } else if j < a.len() + cs.len() {
                assert(ms[j] == cs[j - a.len()]);
            } else {
                assert(ms[j] == cl[j - a.len() - cs.len()]);
            }
        },
        _ => {
            lemma_slides_plain(s.board, pc, from, crate::rules::rook_dirs(), 7);
            lemma_slides_plain(s.board, pc, from, crate::rules::knight_dirs(), 1);
            lemma_slides_plain(s.board, pc, from, crate::rules::bishop_dirs(), 7);
            lemma_slides_plain(s.board, pc, from, crate::rules::royal_dirs(), 7);
            assert(plain(ms[j]));
        },
    }
}

} // verus!
