//! The game state: move generation, legality, move application and the end of
//! the game.
use vstd::prelude::*;

use crate::board::{idx, ChessBoard};
use crate::fen::{parse_fen, FenRecord, GameData};
use crate::move_history::{CastleType, ChessMove, ChessMoveKind, ChessMoveVector};
use crate::position::{
    opponent, square_at, square_of_index, ChessPosition, Piece, PieceType, PlayerType,
};
use crate::rules::{
    all_legal_moves, all_pseudo_moves, attacked, castle_move, castle_transit,
    empty_between, en_passant_after, in_check, is_checkmate, is_legal, is_stalemate,
    legal_filter, legal_moves_from, legal_moves_upto, pawn_arrival, pawn_capture,
    pawn_moves, pawn_pushes, play, promotions, pseudo_moves_from,
    pseudo_moves_upto, ray, rights_after, slides, sq, with_active, Situation,
    bishop_dirs, knight_dirs, rook_dirs, royal_dirs,
};

verus! {

/// Every move of `ms` lies on the board and starts on `from`.
pub open spec fn moves_from_square(ms: Seq<ChessMove>, from: ChessPosition) -> bool {
    forall|i: int| 0 <= i < ms.len() ==> (#[trigger] ms[i]).valid() && ms[i].move_vector.from_pos == from
}

/// Every move of `ms` lies on the board.
pub open spec fn moves_valid(ms: Seq<ChessMove>) -> bool {
    forall|i: int| 0 <= i < ms.len() ==> (#[trigger] ms[i]).valid()
}

fn rook_offsets() -> (r: Vec<(i32, i32)>)
    ensures
        r@ == rook_dirs(),
{
    let r = vec![(1, 0), (0, -1), (-1, 0), (0, 1)];
    assert(r@ =~= rook_dirs());
    r
}

fn bishop_offsets() -> (r: Vec<(i32, i32)>)
    ensures
        r@ == bishop_dirs(),
{
    let r = vec![(1, 1), (1, -1), (-1, -1), (-1, 1)];
    assert(r@ =~= bishop_dirs());
    r
}

fn royal_offsets() -> (r: Vec<(i32, i32)>)
    ensures
        r@ == royal_dirs(),
{
    let r = vec![(1, 0), (0, -1), (-1, 0), (0, 1), (1, 1), (1, -1), (-1, -1), (-1, 1)];
    assert(r@ =~= royal_dirs());
    r
}

fn knight_offsets() -> (r: Vec<(i32, i32)>)
    ensures
        r@ == knight_dirs(),
{
    let r = vec![(1, 2), (2, 1), (2, -1), (1, -2), (-1, -2), (-2, -1), (-2, 1), (-1, 2)];
    assert(r@ =~= knight_dirs());
    r
}

/// Appends to `moves` the ray from `from` in direction `d`, at most `n` steps long.
fn push_ray(
    board: &ChessBoard,
    pc: Piece,
    from: ChessPosition,
    d: (i32, i32),
    n: u32,
    moves: &mut Vec<ChessMove>,
)
    requires
        board.wf(),
        from.valid(),
    ensures
        final(moves)@ == old(moves)@ + ray(board@, pc, from, (from.file as int, from.rank as int), d, n as nat),
        moves_from_square(old(moves)@, from) ==> moves_from_square(final(moves)@, from),
{
    let ghost target = old(moves)@ + ray(board@, pc, from, (from.file as int, from.rank as int), d, n as nat);
    let mut cf: i32 = from.file;
    let mut cr: i32 = from.rank;
    let mut left: u32 = n;
    let mut go: bool = true;
    while go && left > 0
        invariant
            board.wf(),
            from.valid(),
            0 <= cf < 8,
            0 <= cr < 8,
            go ==> moves@ + ray(board@, pc, from, (cf as int, cr as int), d, left as nat) == target,
            !go ==> moves@ == target,
            moves_from_square(old(moves)@, from) ==> moves_from_square(moves@, from),
        decreases (if go { 1int } else { 0int }) + left as int,
    {
        let nf: i64 = cf as i64 + d.0 as i64;
        let nr: i64 = cr as i64 + d.1 as i64;
        let ghost rest = ray(board@, pc, from, (cf as int, cr as int), d, left as nat);
        if !(0 <= nf && nf < 8 && 0 <= nr && nr < 8) {
            go = false;
            assert(rest =~= Seq::<ChessMove>::empty());
            assert(moves@ + rest =~= moves@);
        } else {
            let to = ChessPosition { file: nf as i32, rank: nr as i32 };
            match board.get_piece_at_pos(&to) {
                None => {
                    let m = ChessMove::new(ChessMoveKind::Normal, ChessMoveVector::new(from, to), pc);
                    let ghost before = moves@;
                    moves.push(m);
                    assert(before + rest =~= moves@ + ray(board@, pc, from, (nf as int, nr as int), d, (left - 1) as nat));
                    cf = nf as i32;
                    cr = nr as i32;
                    left = left - 1;
                },
                Some(q) => {
                    if q.player_kind != pc.player_kind {
                        let m = ChessMove::new(ChessMoveKind::Take(q.piece_kind), ChessMoveVector::new(from, to), pc);
                        let ghost before = moves@;
                        moves.push(m);
                        assert(before + rest =~= moves@);
                    } else {
                        assert(moves@ + rest =~= moves@);
                    }
                    go = false;
                },
            }
        }
    }
    if go {
        assert(moves@ + ray(board@, pc, from, (cf as int, cr as int), d, 0) =~= moves@);
    }
}


/// How a call of `do_move` ended.
#[derive(Debug, Copy, Clone, PartialEq, Eq, Structural)]
pub enum GameEnd {
    Checkmate,
    StaleMate,
    Draw,
}

impl GameEnd {
    pub fn to_string(&self) -> (r: String)
        ensures
            r@ == (match self {
                GameEnd::Checkmate => "Checkmate"@,
                GameEnd::StaleMate => "Stalemate"@,
                GameEnd::Draw => "Draw"@,
            }),
    {
        match self {
            GameEnd::Checkmate => "Checkmate".to_owned(),
            GameEnd::StaleMate => "Stalemate".to_owned(),
            GameEnd::Draw => "Draw".to_owned(),
        }
    }
}

#[derive(Debug, Copy, Clone, PartialEq, Eq, Structural)]
pub enum MoveResult {
    /// The move was played and ended the game.
    GameEnd(GameEnd),
    /// The move was played and the game goes on.
    Normal,
    /// The move was refused and nothing changed.
    InvalidMove,
}

/// A game in progress.
#[derive(Debug)]
pub struct GameState {
    pub board: ChessBoard,
    pub active_color: PlayerType,
    /// White short, White long, Black short, Black long.
    pub castling_availability: (bool, bool, bool, bool),
    pub en_passant_target_square: Option<ChessPosition>,
    pub half_move_clock: u32,
    pub full_move_no: u32,
    pub prev_moves: Vec<ChessMove>,
}

impl View for GameState {
    type V = Situation;

    open spec fn view(&self) -> Situation {
        Situation {
            board: self.board@,
            active: self.active_color,
            castling: self.castling_availability,
            en_passant: self.en_passant_target_square,
        }
    }
}

impl GameState {
    /// The board has its 64 squares and the en passant square, if any, lies on it.
    pub open spec fn wf(&self) -> bool {
        &&& self.board.wf()
        &&& (self.en_passant_target_square matches Some(p) ==> p.valid())
    }

    /// Appends the rays of all directions of `offsets`, each at most `max_jump` steps long.
    fn get_pseudo_legal_moves_from_offsets(
        &self,
        loc: &ChessPosition,
        offsets: &[(i32, i32)],
        piece: &Piece,
        max_jump: u32,
    ) -> (moves: Vec<ChessMove>)
        requires
            self.wf(),
            loc.valid(),
        ensures
            moves@ == slides(self.board@, *piece, *loc, offsets@, max_jump as nat),
            moves_from_square(moves@, *loc),
    {
        let mut moves: Vec<ChessMove> = Vec::new();
        let mut i: usize = 0;
        while i < offsets.len()
            invariant
                self.wf(),
                loc.valid(),
                i <= offsets@.len(),
                moves@ == slides(self.board@, *piece, *loc, offsets@.take(i as int), max_jump as nat),
                moves_from_square(moves@, *loc),
            decreases offsets@.len() - i,
        {
            push_ray(&self.board, *piece, *loc, offsets[i], max_jump, &mut moves);
            assert(offsets@.take(i + 1).drop_last() =~= offsets@.take(i as int));
            i = i + 1;
        }
        assert(offsets@.take(i as int) =~= offsets@);
        moves
    }

    /// Appends a pawn's arrival on `to`: the move itself, or its four promotions
    /// on the last rank.
    fn push_pawn_arrival(
        kind: ChessMoveKind,
        from: ChessPosition,
        to: ChessPosition,
        pc: Piece,
        moves: &mut Vec<ChessMove>,
    )
        requires
            from.valid(),
            to.valid(),
            !(kind is EnPassant),
        ensures
            final(moves)@ == old(moves)@ + pawn_arrival(kind, from, to, pc),
            moves_from_square(old(moves)@, from) ==> moves_from_square(final(moves)@, from),
    {
        let v = ChessMoveVector::new(from, to);
        let last: i32 = match pc.player_kind {
            PlayerType::White => 7,
            PlayerType::Black => 0,
        };
        let ghost before = old(moves)@;
        if to.rank == last {
            moves.push(ChessMove::new(ChessMoveKind::Promotion(PieceType::Queen), v, pc));
            moves.push(ChessMove::new(ChessMoveKind::Promotion(PieceType::Rook), v, pc));
            moves.push(ChessMove::new(ChessMoveKind::Promotion(PieceType::Bishop), v, pc));
            moves.push(ChessMove::new(ChessMoveKind::Promotion(PieceType::Knight), v, pc));
        } else {
            moves.push(ChessMove::new(kind, v, pc));
        }
        assert(moves@ =~= before + pawn_arrival(kind, from, to, pc));
    }

    /// Forward moves of the pawn `pc` on `from`.
    fn pawn_pushes(&self, from: ChessPosition, pc: Piece, moves: &mut Vec<ChessMove>)
        requires
            self.wf(),
            from.valid(),
        ensures
            final(moves)@ == old(moves)@ + pawn_pushes(self@, from, pc),
            moves_from_square(old(moves)@, from) ==> moves_from_square(final(moves)@, from),
    {
        let (step, start): (i32, i32) = match pc.player_kind {
            PlayerType::White => (1, 1),
            PlayerType::Black => (-1, 6),
        };
        let r1 = from.rank + step;
        if 0 <= r1 && r1 < 8 {
            let one = ChessPosition { file: from.file, rank: r1 };
            if self.board.get_piece_at_pos(&one).is_none() {
                let ghost before = moves@;
                Self::push_pawn_arrival(ChessMoveKind::Normal, from, one, pc, moves);
                let r2 = r1 + step;
                if from.rank == start && 0 <= r2 && r2 < 8 {
                    let two = ChessPosition { file: from.file, rank: r2 };
                    if self.board.get_piece_at_pos(&two).is_none() {
                        moves.push(ChessMove::new(ChessMoveKind::Normal, ChessMoveVector::new(from, two), pc));
                    }
                }
                assert(moves@ =~= before + pawn_pushes(self@, from, pc));
            }
        }
    }

    /// The diagonal move of the pawn `pc` on `from` toward file offset `df`.
    fn pawn_capture(&self, from: ChessPosition, pc: Piece, df: i32, moves: &mut Vec<ChessMove>)
        requires
            self.wf(),
            from.valid(),
            df == 1 || df == -1,
        ensures
            final(moves)@ == old(moves)@ + pawn_capture(self@, from, pc, df as int),
            moves_from_square(old(moves)@, from) ==> moves_from_square(final(moves)@, from),
    {
        let step: i32 = match pc.player_kind {
            PlayerType::White => 1,
            PlayerType::Black => -1,
        };
        let f = from.file + df;
        let r = from.rank + step;
        let ghost before = moves@;
        if 0 <= f && f < 8 && 0 <= r && r < 8 {
            let to = ChessPosition { file: f, rank: r };
            match self.board.get_piece_at_pos(&to) {
                Some(q) => {
                    if q.player_kind != pc.player_kind {
                        Self::push_pawn_arrival(ChessMoveKind::Take(q.piece_kind), from, to, pc, moves);
                    }
                },
                None => {
                    if self.en_passant_target_square == Some(to) {
                        let taken = ChessPosition { file: f, rank: from.rank };
                        moves.push(ChessMove::new(ChessMoveKind::EnPassant(taken), ChessMoveVector::new(from, to), pc));
                    }
                },
            }
        }
        assert(moves@ =~= before + pawn_capture(self@, from, pc, df as int));
    }

    /// Whether squares `lo..hi` of rank `r` are all empty.
    fn squares_empty(&self, r: i32, lo: i32, hi: i32) -> (b: bool)
        requires
            self.wf(),
            0 <= r < 8,
            0 <= lo <= hi <= 8,
        ensures
            b == empty_between(self.board@, r as int, lo as int, hi as int),
    {
        let mut f: i32 = lo;
        while f < hi
            invariant
                self.wf(),
                0 <= r < 8,
                0 <= lo <= f <= hi <= 8,
                forall|g: int| lo <= g < f ==> #[trigger] self.board@[idx(g, r as int)] is None,
            decreases hi - f,
        {
            if self.board.get_at_index((r * 8 + f) as usize).is_some() {
                assert(self.board@[idx(f as int, r as int)] is Some);
                return false;
            }
            f = f + 1;
        }
        true
    }

    /// The castling move of side `t` for the king `pc` on `from`, if offered.
    fn castle_move(&self, from: ChessPosition, pc: Piece, t: CastleType, moves: &mut Vec<ChessMove>)
        requires
            self.wf(),
            from.valid(),
        ensures
            final(moves)@ == old(moves)@ + castle_move(self@, from, pc, t),
            moves_from_square(old(moves)@, from) ==> moves_from_square(final(moves)@, from),
    {
        let c = pc.player_kind;
        let hr: i32 = match c {
            PlayerType::White => 0,
            PlayerType::Black => 7,
        };
        let (corner, lo, hi, k_to): (i32, i32, i32, i32) = match t {
            CastleType::Short => (7, 5, 7, 6),
            CastleType::Long => (0, 1, 4, 2),
        };
        let right = match (c, t) {
            (PlayerType::White, CastleType::Short) => self.castling_availability.0,
            (PlayerType::White, CastleType::Long) => self.castling_availability.1,
            (PlayerType::Black, CastleType::Short) => self.castling_availability.2,
            (PlayerType::Black, CastleType::Long) => self.castling_availability.3,
        };
        let ghost before = moves@;
        if right && from.file == 4 && from.rank == hr {
            let rook = self.board.get_at_index((hr * 8 + corner) as usize);
            if rook == Some(Piece::new(PieceType::Rook, c)) && self.squares_empty(hr, lo, hi) {
                moves.push(ChessMove::new(
                    ChessMoveKind::Castle(t),
                    ChessMoveVector::new(from, ChessPosition { file: k_to, rank: hr }),
                    pc,
                ));
            }
        }
        assert(moves@ =~= before + castle_move(self@, from, pc, t));
    }

    /// Pseudo-legal moves from `pos`, with `side` taken as the side to move.
    fn pseudo_moves_for_side(&self, pos: &ChessPosition, side: PlayerType) -> (moves: Vec<ChessMove>)
        requires
            self.wf(),
            pos.valid(),
        ensures
            moves@ == pseudo_moves_from(with_active(self@, side), *pos),
            moves_from_square(moves@, *pos),
    {
        let ghost s = with_active(self@, side);
        let from = *pos;
        match self.board.get_piece_at_pos(pos) {
            None => Vec::new(),
            Some(piece) => {
                if piece.player_kind != side {
                    return Vec::new();
                }
                match piece.piece_kind {
                    PieceType::Pawn => {
                        let mut moves: Vec<ChessMove> = Vec::new();
                        self.pawn_pushes(from, piece, &mut moves);
                        self.pawn_capture(from, piece, -1, &mut moves);
                        self.pawn_capture(from, piece, 1, &mut moves);
                        assert(pawn_pushes(self@, from, piece) == pawn_pushes(s, from, piece));
                        assert(pawn_capture(self@, from, piece, -1) == pawn_capture(s, from, piece, -1));
                        assert(pawn_capture(self@, from, piece, 1) == pawn_capture(s, from, piece, 1));
                        assert(moves@ =~= pawn_moves(s, from, piece));
                        moves
                    },
                    PieceType::Rook => self.get_pseudo_legal_moves_from_offsets(pos, rook_offsets().as_slice(), &piece, 7),
                    PieceType::Knight => self.get_pseudo_legal_moves_from_offsets(pos, knight_offsets().as_slice(), &piece, 1),
                    PieceType::Bishop => self.get_pseudo_legal_moves_from_offsets(pos, bishop_offsets().as_slice(), &piece, 7),
                    PieceType::Queen => self.get_pseudo_legal_moves_from_offsets(pos, royal_offsets().as_slice(), &piece, 7),
                    PieceType::King => {
                        let mut moves = self.get_pseudo_legal_moves_from_offsets(pos, royal_offsets().as_slice(), &piece, 1);
                        self.castle_move(from, piece, CastleType::Short, &mut moves);
                        self.castle_move(from, piece, CastleType::Long, &mut moves);
                        assert(castle_move(self@, from, piece, CastleType::Short) == castle_move(s, from, piece, CastleType::Short));
                        assert(castle_move(self@, from, piece, CastleType::Long) == castle_move(s, from, piece, CastleType::Long));
                        moves
                    },
                }
            },
        }
    }

    /// Pseudo-legal moves of the piece on `pos`; none unless it belongs to the side to move.
    pub fn generate_pseudo_legal_moves_for_pos(&self, pos: &ChessPosition) -> (moves: Vec<ChessMove>)
        requires
            self.wf(),
            pos.valid(),
        ensures
            moves@ == pseudo_moves_from(self@, *pos),
            moves_from_square(moves@, *pos),
    {
        assert(with_active(self@, self.active_color) == self@);
        self.pseudo_moves_for_side(pos, self.active_color)
    }

    /// The square with row-major index `i`.
    fn square_at_index(i: usize) -> (r: ChessPosition)
        requires
            i < 64,
        ensures
            r == square_of_index(i as int),
            r.valid(),
            r.index() == i,
    {
        ChessPosition { file: (i % 8) as i32, rank: (i / 8) as i32 }
    }

    /// All pseudo-legal moves of `side`, square by square.
    fn pseudo_moves_of_side(&self, side: PlayerType) -> (moves: Vec<ChessMove>)
        requires
            self.wf(),
        ensures
            moves@ == all_pseudo_moves(with_active(self@, side)),
            moves_valid(moves@),
    {
        let ghost s = with_active(self@, side);
        let mut moves: Vec<ChessMove> = Vec::new();
        let mut i: usize = 0;
        while i < 64
            invariant
                self.wf(),
                s == with_active(self@, side),
                i <= 64,
                moves@ == pseudo_moves_upto(s, i as int),
                moves_valid(moves@),
            decreases 64 - i,
        {
            let pos = Self::square_at_index(i);
            let mut more = self.pseudo_moves_for_side(&pos, side);
            let ghost before = moves@;
            moves.append(&mut more);
            assert(moves@ =~= before + pseudo_moves_from(s, square_of_index(i as int)));
            assert(moves_valid(moves@)) by {
                assert forall|k: int| 0 <= k < moves@.len() implies (#[trigger] moves@[k]).valid() by {
                    if k >= before.len() {
                        assert(moves@[k] == pseudo_moves_from(s, pos)[k - before.len()]);
                    }
                }
            }
            i = i + 1;
        }
        moves
    }

    /// Whether a king of `c` stands on a square that the other side attacks.
    fn king_in_check(&self, c: PlayerType) -> (r: bool)
        requires
            self.wf(),
        ensures
            r == in_check(self@, c),
    {
        let opp = c.other();
        let attacks = self.pseudo_moves_of_side(opp);
        let king = Piece::new(PieceType::King, c);
        let mut i: usize = 0;
        while i < 64
            invariant
                self.wf(),
                opp == opponent(c),
                attacks@ == all_pseudo_moves(with_active(self@, opp)),
                king == (Piece { piece_kind: PieceType::King, player_kind: c }),
                i <= 64,
                forall|k: int|
                    0 <= k < i && #[trigger] self@.board[k] == Some(king) ==> !attacked(
                        self@,
                        square_of_index(k),
                        opp,
                    ),
            decreases 64 - i,
        {
            if self.board.get_at_index(i) == Some(king) {
                let pos = Self::square_at_index(i);
                let mut j: usize = 0;
                while j < attacks.len()
                    invariant
                        i < 64,
                        self.wf(),
                        pos == square_of_index(i as int),
                        self@.board[i as int] == Some(king),
                        opp == opponent(c),
                        attacks@ == all_pseudo_moves(with_active(self@, opp)),
                        king == (Piece { piece_kind: PieceType::King, player_kind: c }),
                        forall|l: int| 0 <= l < j ==> (#[trigger] attacks@[l]).move_vector.to_pos != pos,
                        j <= attacks@.len(),
                    decreases attacks@.len() - j,
                {
                    if attacks[j].move_vector.to_pos == pos {
                        assert(attacks@[j as int].move_vector.to_pos == pos);
                        assert(attacked(self@, square_of_index(i as int), opp));
                        return true;
                    }
                    j = j + 1;
                }
                assert(!attacked(self@, square_of_index(i as int), opp));
            }
            i = i + 1;
        }
        assert(!in_check(self@, c));
        false
    }

    /// Whether the side to move is in check.
    pub fn is_check(&self) -> (r: bool)
        requires
            self.wf(),
        ensures
            r == in_check(self@, self.active_color),
    {
        self.king_in_check(self.active_color)
    }

    /// Whether the side that has just moved left its own king attacked.
    pub fn is_prev_in_check(&self) -> (r: bool)
        requires
            self.wf(),
        ensures
            r == in_check(self@, opponent(self.active_color)),
    {
        self.king_in_check(self.active_color.other())
    }

    /// A copy of the position, without the move list.
    fn probe(&self) -> (r: GameState)
        requires
            self.wf(),
        ensures
            r.wf(),
            r@ == self@,
    {
        GameState {
            board: self.board.copy(),
            active_color: self.active_color,
            castling_availability: self.castling_availability,
            en_passant_target_square: self.en_passant_target_square,
            half_move_clock: self.half_move_clock,
            full_move_no: self.full_move_no,
            prev_moves: Vec::new(),
        }
    }

    /// Plays `m` on the position without asking whether it is legal.
    fn play_unchecked(&mut self, m: &ChessMove)
        requires
            old(self).wf(),
            m.valid(),
        ensures
            final(self).wf(),
            final(self)@ == play(old(self)@, *m),
            final(self).half_move_clock == old(self).half_move_clock,
            final(self).full_move_no == old(self).full_move_no,
            final(self).prev_moves@ == old(self).prev_moves@,
    {
        self.board.perform_move(m);
        let from = m.move_vector.from_pos;
        let to = m.move_vector.to_pos;
        let white_king = (from.file == 4 && from.rank == 0) || (to.file == 4 && to.rank == 0);
        let black_king = (from.file == 4 && from.rank == 7) || (to.file == 4 && to.rank == 7);
        let c = self.castling_availability;
        self.castling_availability = (
            c.0 && !white_king && !((from.file == 7 && from.rank == 0) || (to.file == 7 && to.rank == 0)),
            c.1 && !white_king && !((from.file == 0 && from.rank == 0) || (to.file == 0 && to.rank == 0)),
            c.2 && !black_king && !((from.file == 7 && from.rank == 7) || (to.file == 7 && to.rank == 7)),
            c.3 && !black_king && !((from.file == 0 && from.rank == 7) || (to.file == 0 && to.rank == 7)),
        );
        let two_step = m.moved_piece.piece_kind == PieceType::Pawn && m.move_kind == ChessMoveKind::Normal
            && from.file == to.file && (to.rank - from.rank == 2 || from.rank - to.rank == 2);
        self.en_passant_target_square = if two_step {
            Some(ChessPosition { file: from.file, rank: (from.rank + to.rank) / 2 })
        } else {
            None
        };
        self.active_color = self.active_color.other();
        assert(self.castling_availability == rights_after(c, *m));
        assert(self.en_passant_target_square == en_passant_after(*m));
    }

    /// Whether the pseudo-legal move `m` is legal.
    fn is_legal_move(&self, m: &ChessMove) -> (r: bool)
        requires
            self.wf(),
            m.valid(),
        ensures
            r == is_legal(self@, *m),
    {
        let mover = self.active_color;
        let mut after = self.probe();
        after.play_unchecked(m);
        if after.king_in_check(mover) {
            return false;
        }
        match m.move_kind {
            ChessMoveKind::Castle(t) => {
                if self.king_in_check(mover) {
                    return false;
                }
                let from = m.move_vector.from_pos;
                let f: i32 = match t {
                    CastleType::Long => 3,
                    CastleType::Short => 5,
                };
                let transit = ChessMove::new(
                    ChessMoveKind::Normal,
                    ChessMoveVector::new(from, ChessPosition { file: f, rank: from.rank }),
                    m.moved_piece,
                );
                assert(transit == castle_transit(*m));
                let mut passing = self.probe();
                passing.play_unchecked(&transit);
                !passing.king_in_check(mover)
            },
            _ => true,
        }
    }

    /// The legal moves among `ms`, in order.
    fn keep_legal(&self, ms: &Vec<ChessMove>) -> (r: Vec<ChessMove>)
        requires
            self.wf(),
            moves_valid(ms@),
        ensures
            r@ == legal_filter(self@, ms@),
            moves_valid(r@),
    {
        let mut r: Vec<ChessMove> = Vec::new();
        let mut i: usize = 0;
        while i < ms.len()
            invariant
                self.wf(),
                moves_valid(ms@),
                i <= ms@.len(),
                r@ == legal_filter(self@, ms@.take(i as int)),
                moves_valid(r@),
            decreases ms@.len() - i,
        {
            let m = ms[i];
            assert(ms@[i as int].valid());
            assert(ms@.take(i + 1).drop_last() =~= ms@.take(i as int));
            assert(ms@.take(i + 1).last() == m);
            if self.is_legal_move(&m) {
                r.push(m);
            }
            assert(r@ =~= legal_filter(self@, ms@.take(i + 1)));
            i = i + 1;
        }
        assert(ms@.take(i as int) =~= ms@);
        r
    }

    /// Legal moves of the piece on `pos`: its pseudo-legal moves that leave no king
    /// of the mover attacked (castling also starts out of check and passes over no
    /// attacked square). Each candidate is tried on its own copy of the position,
    /// which is then dropped; the game itself is never changed.
    pub fn generate_legal_moves_for_pos(&self, pos: &ChessPosition) -> (moves: Vec<ChessMove>)
        requires
            self.wf(),
            pos.valid(),
        ensures
            moves@ == legal_moves_from(self@, *pos),
            moves_from_square(moves@, *pos),
    {
        let pseudo = self.generate_pseudo_legal_moves_for_pos(pos);
        let moves = self.keep_legal(&pseudo);
        proof {
            lemma_filter_within(self@, pseudo@);
        }
        moves
    }
}

impl GameState {
    /// All pseudo-legal moves of the side to move, square by square.
    pub fn generate_pseudo_legal_moves(&self) -> (moves: Vec<ChessMove>)
        requires
            self.wf(),
        ensures
            moves@ == all_pseudo_moves(self@),
            moves_valid(moves@),
    {
        assert(with_active(self@, self.active_color) == self@);
        self.pseudo_moves_of_side(self.active_color)
    }

    /// All legal moves of the side to move, square by square.
    pub fn generate_legal_moves(&self) -> (moves: Vec<ChessMove>)
        requires
            self.wf(),
        ensures
            moves@ == all_legal_moves(self@),
    {
        let mut moves: Vec<ChessMove> = Vec::new();
        let mut i: usize = 0;
        while i < 64
            invariant
                self.wf(),
                i <= 64,
                moves@ == legal_moves_upto(self@, i as int),
            decreases 64 - i,
        {
            let pos = Self::square_at_index(i);
            let mut more = self.generate_legal_moves_for_pos(&pos);
            let ghost before = moves@;
            moves.append(&mut more);
            assert(moves@ =~= before + legal_moves_from(self@, square_of_index(i as int)));
            i = i + 1;
        }
        moves
    }

    /// The side to move has no legal move and is in check.
    pub fn is_check_mate(&self) -> (r: bool)
        requires
            self.wf(),
        ensures
            r == is_checkmate(self@),
    {
        self.generate_legal_moves().len() == 0 && self.is_check()
    }

    /// The side to move has no legal move and is not in check.
    pub fn is_stale_mate(&self) -> (r: bool)
        requires
            self.wf(),
        ensures
            r == is_stalemate(self@),
    {
        self.generate_legal_moves().len() == 0 && !self.is_check()
    }

    /// The first pseudo-legal move of the side to move from `from_pos` to `to_pos`,
    /// if there is one; none where the two squares are the same.
    pub fn make_move(&self, from_pos: &ChessPosition, to_pos: &ChessPosition) -> (r: Option<ChessMove>)
        requires
            self.wf(),
        ensures
            *from_pos == *to_pos ==> r is None,
            *from_pos != *to_pos ==> match r {
                Some(m) => exists|k: int|
                    0 <= k < all_pseudo_moves(self@).len() && #[trigger] all_pseudo_moves(self@)[k] == m
                        && m.move_vector.from_pos == *from_pos && m.move_vector.to_pos == *to_pos
                        && forall|l: int| 0 <= l < k ==> !(
                            (#[trigger] all_pseudo_moves(self@)[l]).move_vector.from_pos == *from_pos
                            && all_pseudo_moves(self@)[l].move_vector.to_pos == *to_pos),
                None => forall|l: int| 0 <= l < all_pseudo_moves(self@).len() ==> !(
                    (#[trigger] all_pseudo_moves(self@)[l]).move_vector.from_pos == *from_pos
                    && all_pseudo_moves(self@)[l].move_vector.to_pos == *to_pos),
            },
    {
        if *from_pos == *to_pos {
            return None;
        }
        let moves = self.generate_pseudo_legal_moves();
        let mut i: usize = 0;
        while i < moves.len()
            invariant
                moves@ == all_pseudo_moves(self@),
                *from_pos != *to_pos,
                i <= moves@.len(),
                forall|l: int| 0 <= l < i ==> !(
                    (#[trigger] moves@[l]).move_vector.from_pos == *from_pos
                    && moves@[l].move_vector.to_pos == *to_pos),
            decreases moves@.len() - i,
        {
            let m = moves[i];
            if m.move_vector.from_pos == *from_pos && m.move_vector.to_pos == *to_pos {
                assert(moves@[i as int] == m);
                return Some(m);
            }
            i = i + 1;
        }
        None
    }

    /// Plays `chess_move` if it is one of the legal moves of its starting square.
    /// A refused move (same start and end, a start off the board, or not legal)
    /// changes nothing and reports `InvalidMove`. A played move updates the
    /// position, counts a full move after Black and a half move after White
    /// (both saturating), appends the move to `prev_moves`, and reports how the
    /// game stands for the side now to move.
    pub fn do_move(&mut self, chess_move: &ChessMove) -> (r: MoveResult)
        requires
            old(self).wf(),
        ensures
            final(self).wf(),
            ({
                let from = chess_move.move_vector.from_pos;
                let played = from != chess_move.move_vector.to_pos && from.valid()
                    && legal_moves_from(old(self)@, from).contains(*chess_move);
                if played {
                    &&& final(self)@ == play(old(self)@, *chess_move)
                    &&& !in_check(final(self)@, old(self).active_color)
                    &&& final(self).prev_moves@ == old(self).prev_moves@.push(*chess_move)
                    &&& final(self).full_move_no == (if old(self).active_color == PlayerType::Black
                        && old(self).full_move_no < u32::MAX {
                        old(self).full_move_no + 1
                    } else {
                        old(self).full_move_no as int
                    })
                    &&& final(self).half_move_clock == (if old(self).active_color == PlayerType::White
                        && old(self).half_move_clock < u32::MAX {
                        old(self).half_move_clock + 1
                    } else {
                        old(self).half_move_clock as int
                    })
                    &&& r == (if is_stalemate(final(self)@) {
                        MoveResult::GameEnd(GameEnd::StaleMate)
                    } else if is_checkmate(final(self)@) {
                        MoveResult::GameEnd(GameEnd::Checkmate)
                    } else {
                        MoveResult::Normal
                    })
                } else {
                    &&& r == MoveResult::InvalidMove
                    &&& final(self)@ == old(self)@
                    &&& final(self).prev_moves@ == old(self).prev_moves@
                    &&& final(self).full_move_no == old(self).full_move_no
                    &&& final(self).half_move_clock == old(self).half_move_clock
                }
            }),
    {
        let from = chess_move.move_vector.from_pos;
        if from == chess_move.move_vector.to_pos {
            return MoveResult::InvalidMove;
        }
        if !(0 <= from.file && from.file < 8 && 0 <= from.rank && from.rank < 8) {
            return MoveResult::InvalidMove;
        }
        let legal = self.generate_legal_moves_for_pos(&from);
        let mut found = false;
        let mut i: usize = 0;
        while !found && i < legal.len()
            invariant
                i <= legal@.len(),
                found ==> legal@.contains(*chess_move),
                !found ==> forall|l: int| 0 <= l < i ==> #[trigger] legal@[l] != *chess_move,
            decreases legal@.len() - i + (if found { 0int } else { 1int }),
        {
            if legal[i] == *chess_move {
                assert(legal@[i as int] == *chess_move);
                found = true;
            } else {
                i = i + 1;
            }
        }
        if !found {
            assert(!legal@.contains(*chess_move));
            return MoveResult::InvalidMove;
        }
        assert(legal@.contains(*chess_move));
        assert(chess_move.valid());
        let mover = self.active_color;
        proof {
            lemma_legal_move_leaves_no_check(self@, from, *chess_move);
        }
        self.play_unchecked(chess_move);
        if mover == PlayerType::Black && self.full_move_no < u32::MAX {
            self.full_move_no = self.full_move_no + 1;
        }
        if mover == PlayerType::White && self.half_move_clock < u32::MAX {
            self.half_move_clock = self.half_move_clock + 1;
        }
        self.prev_moves.push(*chess_move);
        if self.is_stale_mate() {
            MoveResult::GameEnd(GameEnd::StaleMate)
        } else if self.is_check_mate() {
            MoveResult::GameEnd(GameEnd::Checkmate)
        } else {
            MoveResult::Normal
        }
    }
}

/// The game an imported FEN record starts: its en passant square is kept only if
/// it lies on the board.
pub open spec fn situation_of(d: FenRecord) -> Situation {
    Situation {
        board: d.board,
        active: d.active,
        castling: d.castling,
        en_passant: match d.en_passant {
            Some((f, r)) => square_at(f as int, r as int),
            None => None,
        },
    }
}

/// Kind of the piece that starts on `file` of a back rank.
pub open spec fn back_rank_kind(file: int) -> PieceType {
    if file == 0 || file == 7 {
        PieceType::Rook
    } else if file == 1 || file == 6 {
        PieceType::Knight
    } else if file == 2 || file == 5 {
        PieceType::Bishop
    } else if file == 3 {
        PieceType::Queen
    } else {
        PieceType::King
    }
}

/// Contents of square `i` (row-major) in the standard starting position.
pub open spec fn start_square(i: int) -> Option<Piece> {
    let r = i / 8;
    let f = i % 8;
    if r == 0 {
        Some(Piece { piece_kind: back_rank_kind(f), player_kind: PlayerType::White })
    } else if r == 1 {
        Some(Piece { piece_kind: PieceType::Pawn, player_kind: PlayerType::White })
    } else if r == 6 {
        Some(Piece { piece_kind: PieceType::Pawn, player_kind: PlayerType::Black })
    } else if r == 7 {
        Some(Piece { piece_kind: back_rank_kind(f), player_kind: PlayerType::Black })
    } else {
        None
    }
}

/// The standard starting position, White to move with all castling rights.
pub open spec fn start_situation() -> Situation {
    Situation {
        board: Seq::new(64, |i: int| start_square(i)),
        active: PlayerType::White,
        castling: (true, true, true, true),
        en_passant: None,
    }
}

fn back_rank_piece(file: usize) -> (r: PieceType)
    requires
        file < 8,
    ensures
        r == back_rank_kind(file as int),
{
    if file == 0 || file == 7 {
        PieceType::Rook
    } else if file == 1 || file == 6 {
        PieceType::Knight
    } else if file == 2 || file == 5 {
        PieceType::Bishop
    } else if file == 3 {
        PieceType::Queen
    } else {
        PieceType::King
    }
}

impl Default for GameState {
    /// The standard starting position.
    fn default() -> (r: GameState)
        ensures
            r.wf(),
            r@ == start_situation(),
            r.half_move_clock == 0,
            r.full_move_no == 1,
            r.prev_moves@.len() == 0,
    {
        let mut squares: Vec<Option<Piece>> = Vec::new();
        let mut i: usize = 0;
        while i < 64
            invariant
                i <= 64,
                squares@.len() == i,
                forall|k: int| 0 <= k < i ==> #[trigger] squares@[k] == start_square(k),
            decreases 64 - i,
        {
            let r = i / 8;
            let f = i % 8;
            let sq = if r == 0 {
                Some(Piece::new(back_rank_piece(f), PlayerType::White))
            } else if r == 1 {
                Some(Piece::new(PieceType::Pawn, PlayerType::White))
            } else if r == 6 {
                Some(Piece::new(PieceType::Pawn, PlayerType::Black))
            } else if r == 7 {
                Some(Piece::new(back_rank_piece(f), PlayerType::Black))
            } else {
                None
            };
            squares.push(sq);
            i = i + 1;
        }
        let r = GameState {
            board: ChessBoard { squares },
            active_color: PlayerType::White,
            castling_availability: (true, true, true, true),
            en_passant_target_square: None,
            half_move_clock: 0,
            full_move_no: 1,
            prev_moves: Vec::new(),
        };
        assert(r@.board =~= start_situation().board);
        r
    }
}

impl GameState {
    /// The game described by FEN text; `None` where the text is malformed.
    pub fn from_fen(fen_string: &str) -> (r: Option<GameState>)
        ensures
            match r {
                Some(g) => {
                    &&& g.wf()
                    &&& parse_fen(fen_string@) is Some
                    &&& g@ == situation_of(parse_fen(fen_string@).unwrap())
                    &&& g.half_move_clock == parse_fen(fen_string@).unwrap().halfmove
                    &&& g.full_move_no == parse_fen(fen_string@).unwrap().fullmove
                    &&& g.prev_moves@.len() == 0
                },
                None => parse_fen(fen_string@) is None,
            },
    {
        let d = match GameData::from_fen(fen_string) {
            Some(d) => d,
            None => return None,
        };
        let en_pass = match d.en_passant_target_square {
            Some(t) => ChessPosition::from_tuple(t),
            None => None,
        };
        Some(GameState {
            board: ChessBoard { squares: d.table },
            active_color: d.active_color,
            castling_availability: d.castling_availability,
            en_passant_target_square: en_pass,
            half_move_clock: d.halfmove_clock,
            full_move_no: d.fullmove_number,
            prev_moves: Vec::new(),
        })
    }
}

/// Every legal move kept from `ms` is one of `ms`.
pub proof fn lemma_filter_within(s: Situation, ms: Seq<ChessMove>)
    ensures
        forall|i: int| 0 <= i < legal_filter(s, ms).len() ==> ms.contains(#[trigger] legal_filter(s, ms)[i]),
        forall|i: int| 0 <= i < legal_filter(s, ms).len() ==> is_legal(s, #[trigger] legal_filter(s, ms)[i]),
    decreases ms.len(),
{
    if ms.len() > 0 {
        lemma_filter_within(s, ms.drop_last());
        let prev = legal_filter(s, ms.drop_last());
        assert forall|i: int| 0 <= i < legal_filter(s, ms).len() implies ms.contains(#[trigger] legal_filter(s, ms)[i]) && is_legal(s, legal_filter(s, ms)[i]) by {
            if i < prev.len() {
                assert(legal_filter(s, ms)[i] == prev[i]);
                assert(ms.drop_last().contains(prev[i]));
                let k = choose|k: int| 0 <= k < ms.drop_last().len() && ms.drop_last()[k] == prev[i];
                assert(ms[k] == prev[i]);
            } else {
                assert(legal_filter(s, ms)[i] == ms.last());
                assert(ms[ms.len() - 1] == ms.last());
            }
        }
    }
}

/// A legal move never leaves the mover's own king attacked: after any legal move
/// from any square, the side that moved is not in check.
pub proof fn lemma_legal_move_leaves_no_check(s: Situation, from: ChessPosition, m: ChessMove)
    requires
        legal_moves_from(s, from).contains(m),
    ensures
        !in_check(play(s, m), s.active),
{
    lemma_filter_within(s, pseudo_moves_from(s, from));
    let k = choose|k: int| 0 <= k < legal_moves_from(s, from).len() && legal_moves_from(s, from)[k] == m;
    assert(is_legal(s, legal_moves_from(s, from)[k]));
}

} // verus!
