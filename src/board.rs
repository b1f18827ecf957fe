use vstd::prelude::*;

use crate::move_history::{CastleType, ChessMove, ChessMoveKind};
use crate::position::{ChessPosition, Piece};

verus! {

/// The 8x8 grid, stored row-major: the square `(file, rank)` is at `rank * 8 + file`.
#[derive(Debug)]
pub struct ChessBoard {
    pub squares: Vec<Option<Piece>>,
}

/// Contents of square `p` of a board model.
pub open spec fn piece_at(b: Seq<Option<Piece>>, p: ChessPosition) -> Option<Piece> {
    b[p.index()]
}

/// Row-major index of `(file, rank)`.
pub open spec fn idx(file: int, rank: int) -> int {
    rank * 8 + file
}

/// Files of the king and rook before and after castling: (king to, rook from, rook to).
pub open spec fn castle_files(t: CastleType) -> (int, int, int) {
    match t {
        CastleType::Short => (6, 7, 5),
        CastleType::Long => (2, 0, 3),
    }
}

/// The board after `m`, taken as given: the piece leaves `from` and lands on `to`
/// (promoted where the move promotes), an en passant capture also clears the taken
/// pawn's square, and castling also moves the corner rook next to the king.
pub open spec fn board_after(b: Seq<Option<Piece>>, m: ChessMove) -> Seq<Option<Piece>> {
    let from = m.move_vector.from_pos.index();
    let to = m.move_vector.to_pos.index();
    let p = m.moved_piece;
    match m.move_kind {
        ChessMoveKind::Normal | ChessMoveKind::Take(_) => b.update(to, Some(p)).update(from, None),
        ChessMoveKind::EnPassant(c) => b.update(to, Some(p)).update(from, None).update(c.index(), None),
        ChessMoveKind::Castle(t) => {
            let r = m.move_vector.from_pos.rank as int;
            let (k_to, r_from, r_to) = castle_files(t);
            let b1 = b.update(idx(k_to, r), Some(p)).update(from, None);
            b1.update(idx(r_to, r), b1[idx(r_from, r)]).update(idx(r_from, r), None)
        },
        ChessMoveKind::Promotion(k) => b.update(to, Some(Piece { piece_kind: k, player_kind: p.player_kind })).update(from, None),
    }
}

impl View for ChessBoard {
    type V = Seq<Option<Piece>>;

    open spec fn view(&self) -> Seq<Option<Piece>> {
        self.squares@
    }
}

impl ChessBoard {
    pub open spec fn wf(&self) -> bool {
        self@.len() == 64
    }

    /// A board with no pieces on it.
    pub fn empty() -> (r: ChessBoard)
        ensures
            r.wf(),
            forall|i: int| 0 <= i < 64 ==> #[trigger] r@[i] == None::<Piece>,
    {
        let mut squares: Vec<Option<Piece>> = Vec::new();
        let mut i: usize = 0;
        while i < 64
            invariant
                i <= 64,
                squares@.len() == i,
                forall|j: int| 0 <= j < i ==> #[trigger] squares@[j] == None::<Piece>,
            decreases 64 - i,
        {
            squares.push(None);
            i = i + 1;
        }
        ChessBoard { squares }
    }

    /// A square-by-square copy.
    pub fn copy(&self) -> (r: ChessBoard)
        requires
            self.wf(),
        ensures
            r@ == self@,
    {
        let mut squares: Vec<Option<Piece>> = Vec::new();
        let mut i: usize = 0;
        while i < 64
            invariant
                self.wf(),
                i <= 64,
                squares@ == self@.take(i as int),
            decreases 64 - i,
        {
            squares.push(self.squares[i]);
            i = i + 1;
            assert(squares@ =~= self@.take(i as int));
        }
        assert(squares@ =~= self@);
        ChessBoard { squares }
    }

    pub fn get_piece_at_pos(&self, pos: &ChessPosition) -> (r: Option<Piece>)
        requires
            self.wf(),
            pos.valid(),
        ensures
            r == piece_at(self@, *pos),
    {
        self.squares[(pos.rank * 8 + pos.file) as usize]
    }

    /// Contents of the square with row-major index `i`.
    pub fn get_at_index(&self, i: usize) -> (r: Option<Piece>)
        requires
            self.wf(),
            i < 64,
        ensures
            r == self@[i as int],
    {
        self.squares[i]
    }

    pub(crate) fn set_piece_at_pos(&mut self, pos: &ChessPosition, piece: Option<Piece>)
        requires
            old(self).wf(),
            pos.valid(),
        ensures
            final(self)@ == old(self)@.update(pos.index(), piece),
            final(self).wf(),
    {
        self.squares.set((pos.rank * 8 + pos.file) as usize, piece);
    }

    pub(crate) fn remove_piece_at_pos(&mut self, pos: &ChessPosition)
        requires
            old(self).wf(),
            pos.valid(),
        ensures
            final(self)@ == old(self)@.update(pos.index(), None),
            final(self).wf(),
    {
        self.squares.set((pos.rank * 8 + pos.file) as usize, None);
    }

    /// Applies `chess_move` without asking whether it is legal.
    pub fn perform_move(&mut self, chess_move: &ChessMove)
        requires
            old(self).wf(),
            chess_move.valid(),
        ensures
            final(self).wf(),
            final(self)@ == board_after(old(self)@, *chess_move),
    {
        let from = chess_move.move_vector.from_pos;
        let to = chess_move.move_vector.to_pos;
        match chess_move.move_kind {
            ChessMoveKind::Normal | ChessMoveKind::Take(_) => {
                self.set_piece_at_pos(&to, Some(chess_move.moved_piece));
                self.remove_piece_at_pos(&from);
            },
            ChessMoveKind::EnPassant(taken) => {
                self.set_piece_at_pos(&to, Some(chess_move.moved_piece));
                self.remove_piece_at_pos(&from);
                self.remove_piece_at_pos(&taken);
            },
            ChessMoveKind::Castle(castle_type) => {
                let (k_to, r_from, r_to): (i32, i32, i32) = match castle_type {
                    CastleType::Short => (6, 7, 5),
                    CastleType::Long => (2, 0, 3),
                };
                let king_to = ChessPosition { file: k_to, rank: from.rank };
                let rook_from = ChessPosition { file: r_from, rank: from.rank };
                let rook_to = ChessPosition { file: r_to, rank: from.rank };
                self.set_piece_at_pos(&king_to, Some(chess_move.moved_piece));
                self.remove_piece_at_pos(&from);
                let rook = self.get_piece_at_pos(&rook_from);
                self.set_piece_at_pos(&rook_to, rook);
                self.remove_piece_at_pos(&rook_from);
            },
            ChessMoveKind::Promotion(piece_type) => {
                self.set_piece_at_pos(
                    &to,
                    Some(Piece::new(piece_type, chess_move.moved_piece.player_kind)),
                );
                self.remove_piece_at_pos(&from);
            },
        }
    }
}

} // verus!
