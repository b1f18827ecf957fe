use vstd::prelude::*;

use crate::position::{ChessPosition, Piece, PieceType};

verus! {

/// The two endpoints of a move.
#[derive(Debug, Copy, Clone, PartialEq, Eq, Structural)]
pub struct ChessMoveVector {
    pub from_pos: ChessPosition,
    pub to_pos: ChessPosition,
}

impl ChessMoveVector {
    pub fn new(from_pos: ChessPosition, to_pos: ChessPosition) -> (r: Self)
        ensures
            r.from_pos == from_pos,
            r.to_pos == to_pos,
    {
        ChessMoveVector { from_pos, to_pos }
    }
}

/// Which rook a king castles with: `Short` toward the h-file, `Long` toward the a-file.
#[derive(Debug, Copy, Clone, PartialEq, Eq, Structural)]
pub enum CastleType {
    Short,
    Long,
}

#[derive(Debug, Copy, Clone, PartialEq, Eq, Structural)]
pub enum ChessMoveKind {
    Castle(CastleType),
    /// The kind the pawn turns into.
    Promotion(PieceType),
    Normal,
    /// Kind of the taken piece.
    Take(PieceType),
    /// Square of the taken pawn.
    EnPassant(ChessPosition),
}

/// A move: its kind, its endpoints and the piece that moves.
#[derive(Debug, Copy, Clone, PartialEq, Eq, Structural)]
pub struct ChessMove {
    pub move_kind: ChessMoveKind,
    pub move_vector: ChessMoveVector,
    pub moved_piece: Piece,
}

impl ChessMove {
    pub fn new(move_kind: ChessMoveKind, move_vector: ChessMoveVector, moved_piece: Piece) -> (r: Self)
        ensures
            r.move_kind == move_kind,
            r.move_vector == move_vector,
            r.moved_piece == moved_piece,
    {
        ChessMove { move_kind, move_vector, moved_piece }
    }

    /// The endpoints lie on the board, and so does the taken pawn of an en passant move.
    pub open spec fn valid(self) -> bool {
        &&& self.move_vector.from_pos.valid()
        &&& self.move_vector.to_pos.valid()
        &&& (self.move_kind matches ChessMoveKind::EnPassant(c) ==> c.valid())
    }
}

/// Record of a game's moves (kept empty: the game state holds its move list).
#[derive(Debug)]
pub struct MoveHistory {}

} // verus!
