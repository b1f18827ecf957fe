use vstd::prelude::*;

verus! {

/// The side a piece belongs to, or the side whose turn it is.
#[derive(Debug, Copy, Clone, PartialEq, Eq, Structural)]
pub enum PlayerType {
    Black,
    White,
}

/// The six kinds of chess pieces.
#[derive(Debug, Copy, Clone, PartialEq, Eq, Structural)]
pub enum PieceType {
    Pawn,
    Rook,
    Knight,
    Bishop,
    Queen,
    King,
}

/// A piece is only its kind and its owner; pieces carry no identity.
#[derive(Debug, Copy, Clone, PartialEq, Eq, Structural)]
pub struct Piece {
    pub piece_kind: PieceType,
    pub player_kind: PlayerType,
}

/// The side that is not `p`.
pub open spec fn opponent(p: PlayerType) -> PlayerType {
    match p {
        PlayerType::Black => PlayerType::White,
        PlayerType::White => PlayerType::Black,
    }
}

impl PlayerType {
    /// The other side.
    pub fn other(self) -> (r: PlayerType)
        ensures
            r == opponent(self),
    {
        match self {
            PlayerType::Black => PlayerType::White,
            PlayerType::White => PlayerType::Black,
        }
    }
}

impl Piece {
    pub fn new(piece_kind: PieceType, player_kind: PlayerType) -> (r: Piece)
        ensures
            r.piece_kind == piece_kind,
            r.player_kind == player_kind,
    {
        Piece { piece_kind, player_kind }
    }
}

/// A square of the board: `file` 0 is the a-file, `rank` 0 is the first rank
/// (White's back rank).
#[derive(Debug, Copy, Clone, PartialEq, Eq, Structural)]
pub struct ChessPosition {
    pub file: i32,
    pub rank: i32,
}

/// Whether the coordinates name a square of the 8x8 board.
pub open spec fn on_board(file: int, rank: int) -> bool {
    0 <= file < 8 && 0 <= rank < 8
}

/// The square at the given coordinates, if they lie on the board.
pub open spec fn square_at(file: int, rank: int) -> Option<ChessPosition> {
    if on_board(file, rank) {
        Some(ChessPosition { file: file as i32, rank: rank as i32 })
    } else {
        None
    }
}

impl ChessPosition {
    pub open spec fn valid(self) -> bool {
        on_board(self.file as int, self.rank as int)
    }

    /// Row-major index of the square: `rank * 8 + file`.
    pub open spec fn index(self) -> int {
        self.rank as int * 8 + self.file as int
    }
}

/// The square with the given row-major index.
pub open spec fn square_of_index(i: int) -> ChessPosition {
    ChessPosition { file: (i % 8) as i32, rank: (i / 8) as i32 }
}

proof fn lemma_i32_product_fits(a: int, b: int)
    requires
        -0x8000_0000 <= a < 0x8000_0000,
        -0x8000_0000 <= b < 0x8000_0000,
    ensures
        -0x8000_0000_0000_0000 <= a * b < 0x8000_0000_0000_0000,
{
    assert(-0x8000_0000_0000_0000 <= a * b < 0x8000_0000_0000_0000) by (nonlinear_arith)
        requires
            -0x8000_0000 <= a < 0x8000_0000,
            -0x8000_0000 <= b < 0x8000_0000,
    ;
}

/// Validates raw coordinates as a square of the board.
fn check_valid_pos(file: i64, rank: i64) -> (r: Option<ChessPosition>)
    ensures
        r == square_at(file as int, rank as int),
{
    if 0 <= file && file < 8 && 0 <= rank && rank < 8 {
        Some(ChessPosition { file: file as i32, rank: rank as i32 })
    } else {
        None
    }
}

impl ChessPosition {
    pub fn new(file: i32, rank: i32) -> (r: Option<ChessPosition>)
        ensures
            r == square_at(file as int, rank as int),
    {
        check_valid_pos(file as i64, rank as i64)
    }

    pub fn from_tuple(t: (usize, usize)) -> (r: Option<ChessPosition>)
        ensures
            r == square_at(t.0 as int, t.1 as int),
    {
        if t.0 < 8 && t.1 < 8 {
            check_valid_pos(t.0 as i64, t.1 as i64)
        } else {
            None
        }
    }

    /// The square displaced from this one by `other`, taken as a vector.
    pub fn add(&self, other: &ChessPosition) -> (r: Option<ChessPosition>)
        ensures
            r == square_at(self.file + other.file, self.rank + other.rank),
    {
        check_valid_pos(self.file as i64 + other.file as i64, self.rank as i64 + other.rank as i64)
    }

    /// The square displaced from this one by `(file, rank)`.
    pub fn add_offset(&self, offset: &(i32, i32)) -> (r: Option<ChessPosition>)
        ensures
            r == square_at(self.file + offset.0, self.rank + offset.1),
    {
        check_valid_pos(self.file as i64 + offset.0 as i64, self.rank as i64 + offset.1 as i64)
    }

    /// Both coordinates scaled by `other`.
    pub fn mul(&self, other: i32) -> (r: Option<ChessPosition>)
        ensures
            r == square_at(self.file * other, self.rank * other),
    {
        let a: i64 = self.file as i64;
        let b: i64 = self.rank as i64;
        let c: i64 = other as i64;
        proof {
            lemma_i32_product_fits(a as int, c as int);
            lemma_i32_product_fits(b as int, c as int);
        }
        let f: i64 = a * c;
        let k: i64 = b * c;
        check_valid_pos(f, k)
    }

    pub fn abs_rank_diff(&self, other: &ChessPosition) -> (r: i32)
        requires
            self.valid(),
            other.valid(),
        ensures
            r == if self.rank >= other.rank { self.rank - other.rank } else { other.rank - self.rank },
    {
        if self.rank >= other.rank { self.rank - other.rank } else { other.rank - self.rank }
    }

    pub fn abs_file_diff(&self, other: &ChessPosition) -> (r: i32)
        requires
            self.valid(),
            other.valid(),
        ensures
            r == if self.file >= other.file { self.file - other.file } else { other.file - self.file },
    {
        if self.file >= other.file { self.file - other.file } else { other.file - self.file }
    }

    pub fn as_tuple(&self) -> (r: (i32, i32))
        ensures
            r == (self.file, self.rank),
    {
        (self.file, self.rank)
    }

    /// All 64 squares, file by file, and within a file rank by rank.
    pub fn iter() -> (r: Vec<ChessPosition>)
        ensures
            r@.len() == 64,
            forall|i: int|
                0 <= i < 64 ==> #[trigger] r@[i] == (ChessPosition {
                    file: (i / 8) as i32,
                    rank: (i % 8) as i32,
                }),
    {
        let mut r: Vec<ChessPosition> = Vec::new();
        let mut file: i32 = 0;
        while file < 8
            invariant
                0 <= file <= 8,
                r@.len() == file * 8,
                forall|i: int|
                    0 <= i < file * 8 ==> #[trigger] r@[i] == (ChessPosition {
                        file: (i / 8) as i32,
                        rank: (i % 8) as i32,
                    }),
            decreases 8 - file,
        {
            let mut rank: i32 = 0;
            while rank < 8
                invariant
                    0 <= file < 8,
                    0 <= rank <= 8,
                    r@.len() == file * 8 + rank,
                    forall|i: int|
                        0 <= i < file * 8 + rank ==> #[trigger] r@[i] == (ChessPosition {
                            file: (i / 8) as i32,
                            rank: (i % 8) as i32,
                        }),
                decreases 8 - rank,
            {
                r.push(ChessPosition { file, rank });
                rank = rank + 1;
            }
            file = file + 1;
        }
        r
    }

    /// The same square seen from the other side of the board.
    pub fn to_flipped(self) -> (r: ChessPosition)
        requires
            self.valid(),
        ensures
            r == (ChessPosition { file: self.file, rank: (7 - self.rank) as i32 }),
    {
        ChessPosition { file: self.file, rank: (7 - self.rank) as i32 }
    }

    /// The square as drawn for `player_kind`: flipped for White, unchanged for Black.
    pub fn adjust_for_current_player(self, player_kind: PlayerType) -> (r: ChessPosition)
        requires
            self.valid(),
        ensures
            r == (match player_kind {
                PlayerType::Black => self,
                PlayerType::White => ChessPosition { file: self.file, rank: (7 - self.rank) as i32 },
            }),
    {
        match player_kind {
            PlayerType::Black => self,
            PlayerType::White => self.to_flipped(),
        }
    }
}

} // verus!
