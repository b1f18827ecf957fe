//! Import of a position from FEN text.
use vstd::prelude::*;
use vstd::string::StrSliceExecFns;

use crate::position::{Piece, PieceType, PlayerType};

verus! {

/// What a FEN text records.
pub struct FenRecord {
    pub board: Seq<Option<Piece>>,
    pub active: PlayerType,
    pub castling: (bool, bool, bool, bool),
    pub en_passant: Option<(usize, usize)>,
    pub halfmove: u32,
    pub fullmove: u32,
}

/// ASCII whitespace, which separates the fields.
pub open spec fn is_ws(c: char) -> bool {
    c == ' ' || c == '\t' || c == '\n' || c == '\r' || c == '\x0C'
}

/// Splitting of `s` on whitespace, as (finished fields, field in progress).
pub open spec fn fields_acc(s: Seq<char>) -> (Seq<Seq<char>>, Seq<char>)
    decreases s.len(),
{
    if s.len() == 0 {
        (Seq::empty(), Seq::empty())
    } else {
        let (fs, cur) = fields_acc(s.drop_last());
        let c = s.last();
        if is_ws(c) {
            if cur.len() > 0 {
                (fs.push(cur), Seq::empty())
            } else {
                (fs, Seq::empty())
            }
        } else {
            (fs, cur.push(c))
        }
    }
}

/// The non-empty runs of non-whitespace characters of `s`, in order.
pub open spec fn fields(s: Seq<char>) -> Seq<Seq<char>> {
    let (fs, cur) = fields_acc(s);
    if cur.len() > 0 {
        fs.push(cur)
    } else {
        fs
    }
}

/// The piece a FEN letter stands for: upper case White, lower case Black.
pub open spec fn piece_of_char(c: char) -> Option<Piece> {
    let w = PlayerType::White;
    let b = PlayerType::Black;
    if c == 'K' { Some(Piece { piece_kind: PieceType::King, player_kind: w }) }
    else if c == 'Q' { Some(Piece { piece_kind: PieceType::Queen, player_kind: w }) }
    else if c == 'R' { Some(Piece { piece_kind: PieceType::Rook, player_kind: w }) }
    else if c == 'B' { Some(Piece { piece_kind: PieceType::Bishop, player_kind: w }) }
    else if c == 'N' { Some(Piece { piece_kind: PieceType::Knight, player_kind: w }) }
    else if c == 'P' { Some(Piece { piece_kind: PieceType::Pawn, player_kind: w }) }
    else if c == 'k' { Some(Piece { piece_kind: PieceType::King, player_kind: b }) }
    else if c == 'q' { Some(Piece { piece_kind: PieceType::Queen, player_kind: b }) }
    else if c == 'r' { Some(Piece { piece_kind: PieceType::Rook, player_kind: b }) }
    else if c == 'b' { Some(Piece { piece_kind: PieceType::Bishop, player_kind: b }) }
    else if c == 'n' { Some(Piece { piece_kind: PieceType::Knight, player_kind: b }) }
    else if c == 'p' { Some(Piece { piece_kind: PieceType::Pawn, player_kind: b }) }
    else { None }
}

pub open spec fn is_digit(c: char) -> bool {
    '0' <= c && c <= '9'
}

pub open spec fn digit_value(c: char) -> int {
    c as int - '0' as int
}

/// One character of a board field read on top of `st`, the reading so far: the
/// squares so far in text order (eighth rank first, a-file first within a rank),
/// the number of rank separators seen, and the number of files of the current
/// rank filled. `None` once the text is malformed: a rank overfull, a separator
/// before a rank is full or after the first rank, or a character that is no piece
/// letter, no digit 1 to 8 and no separator.
pub open spec fn scan_step(st: Option<(Seq<Option<Piece>>, int, int)>, c: char) -> Option<(Seq<Option<Piece>>, int, int)> {
    match st {
        None => None,
        Some((cells, ranks, file)) => {
            if c == '/' {
                if file == 8 && ranks < 7 { Some((cells, ranks + 1, 0)) } else { None }
            } else if '1' <= c && c <= '8' {
                let d = digit_value(c);
                if file + d <= 8 {
                    Some((cells + Seq::new(d as nat, |i: int| None::<Piece>), ranks, file + d))
                } else {
                    None
                }
            } else {
                match piece_of_char(c) {
                    Some(p) => if file < 8 { Some((cells.push(Some(p)), ranks, file + 1)) } else { None },
                    None => None,
                }
            }
        },
    }
}

/// Reading of a whole board field, character by character (see `scan_step`).
pub open spec fn board_scan(s: Seq<char>) -> Option<(Seq<Option<Piece>>, int, int)>
    decreases s.len(),
{
    if s.len() == 0 {
        Some((Seq::empty(), 0, 0))
    } else {
        scan_step(board_scan(s.drop_last()), s.last())
    }
}

/// The board a FEN board field describes, row-major from the first rank: eight
/// ranks of eight files each, or `None`.
pub open spec fn placement(s: Seq<char>) -> Option<Seq<Option<Piece>>> {
    match board_scan(s) {
        Some((cells, ranks, file)) => if ranks == 7 && file == 8 {
            Some(Seq::new(64, |i: int| cells[(7 - i / 8) * 8 + i % 8]))
        } else {
            None
        },
        None => None,
    }
}

pub open spec fn color_field(f: Seq<char>) -> Option<PlayerType> {
    if f == seq!['w'] {
        Some(PlayerType::White)
    } else if f == seq!['b'] {
        Some(PlayerType::Black)
    } else {
        None
    }
}

/// Castling rights named by the letters of the field; other characters, such as
/// the placeholder `-`, name none.
pub open spec fn castling_field(f: Seq<char>) -> (bool, bool, bool, bool) {
    (f.contains('K'), f.contains('Q'), f.contains('k'), f.contains('q'))
}

/// A square in algebraic notation as (file, rank), both from 0; anything else,
/// such as the placeholder `-`, names none.
pub open spec fn square_field(f: Seq<char>) -> Option<(usize, usize)> {
    if f.len() == 2 && 'a' <= f[0] && f[0] <= 'h' && '1' <= f[1] && f[1] <= '8' {
        Some(((f[0] as int - 'a' as int) as usize, (f[1] as int - '1' as int) as usize))
    } else {
        None
    }
}

/// Value of a string of decimal digits.
pub open spec fn decimal_value(f: Seq<char>) -> int
    decreases f.len(),
{
    if f.len() == 0 {
        0
    } else {
        decimal_value(f.drop_last()) * 10 + digit_value(f.last())
    }
}

/// A non-negative integer that fits in 32 bits, written in decimal digits only.
pub open spec fn counter_field(f: Seq<char>) -> Option<u32> {
    if f.len() > 0 && (forall|i: int| 0 <= i < f.len() ==> is_digit(#[trigger] f[i]))
        && decimal_value(f) <= u32::MAX {
        Some(decimal_value(f) as u32)
    } else {
        None
    }
}

/// What the FEN text `s` records: six whitespace-separated fields (board, side to
/// move, castling, en passant, half moves, full moves; later fields are ignored),
/// or `None` where one is missing or malformed.
pub open spec fn parse_fen(s: Seq<char>) -> Option<FenRecord> {
    let fs = fields(s);
    if fs.len() < 6 {
        None
    } else {
        match (placement(fs[0]), color_field(fs[1]), counter_field(fs[4]), counter_field(fs[5])) {
            (Some(board), Some(active), Some(halfmove), Some(fullmove)) => Some(
                FenRecord {
                    board,
                    active,
                    castling: castling_field(fs[2]),
                    en_passant: square_field(fs[3]),
                    halfmove,
                    fullmove,
                },
            ),
            _ => None,
        }
    }
}

/// A position as read from FEN text. `table` is row-major from the first rank:
/// the square (file, rank) is at `rank * 8 + file`.
pub struct GameData {
    pub table: Vec<Option<Piece>>,
    pub active_color: PlayerType,
    /// White short, White long, Black short, Black long.
    pub castling_availability: (bool, bool, bool, bool),
    /// (file, rank), both from 0.
    pub en_passant_target_square: Option<(usize, usize)>,
    pub halfmove_clock: u32,
    pub fullmove_number: u32,
}

impl GameData {
    pub open spec fn record(&self) -> FenRecord {
        FenRecord {
            board: self.table@,
            active: self.active_color,
            castling: self.castling_availability,
            en_passant: self.en_passant_target_square,
            halfmove: self.halfmove_clock,
            fullmove: self.fullmove_number,
        }
    }
}

/// The characters of `s`.
fn chars_of(s: &str) -> (r: Vec<char>)
    ensures
        r@ == s@,
{
    let n = s.unicode_len();
    let mut r: Vec<char> = Vec::new();
    let mut i: usize = 0;
    while i < n
        invariant
            n == s@.len(),
            i <= n,
            r@ == s@.take(i as int),
        decreases n - i,
    {
        r.push(s.get_char(i));
        i = i + 1;
        assert(r@ =~= s@.take(i as int));
    }
    assert(s@.take(i as int) =~= s@);
    r
}

fn is_ws_char(c: char) -> (r: bool)
    ensures
        r == is_ws(c),
{
    c == ' ' || c == '\t' || c == '\n' || c == '\r' || c == '\x0C'
}

/// The whitespace-separated fields of `s`.
fn split_fields(s: &Vec<char>) -> (r: Vec<Vec<char>>)
    ensures
        r@.len() == fields(s@).len(),
        forall|k: int| 0 <= k < r@.len() ==> (#[trigger] r@[k])@ == fields(s@)[k],
{
    let mut done: Vec<Vec<char>> = Vec::new();
    let mut cur: Vec<char> = Vec::new();
    let mut i: usize = 0;
    while i < s.len()
        invariant
            i <= s@.len(),
            done@.len() == fields_acc(s@.take(i as int)).0.len(),
            forall|k: int| 0 <= k < done@.len() ==> (#[trigger] done@[k])@ == fields_acc(s@.take(i as int)).0[k],
            cur@ == fields_acc(s@.take(i as int)).1,
        decreases s@.len() - i,
    {
        let c = s[i];
        assert(s@.take(i + 1).drop_last() =~= s@.take(i as int));
        assert(s@.take(i + 1).last() == c);
        if is_ws_char(c) {
            if cur.len() > 0 {
                done.push(cur);
                cur = Vec::new();
            }
        } else {
            cur.push(c);
        }
        i = i + 1;
    }
    assert(s@.take(i as int) =~= s@);
    if cur.len() > 0 {
        done.push(cur);
    }
    done
}

fn piece_from_char(c: char) -> (r: Option<Piece>)
    ensures
        r == piece_of_char(c),
{
    let w = PlayerType::White;
    let b = PlayerType::Black;
    match c {
        'K' => Some(Piece::new(PieceType::King, w)),
        'Q' => Some(Piece::new(PieceType::Queen, w)),
        'R' => Some(Piece::new(PieceType::Rook, w)),
        'B' => Some(Piece::new(PieceType::Bishop, w)),
        'N' => Some(Piece::new(PieceType::Knight, w)),
        'P' => Some(Piece::new(PieceType::Pawn, w)),
        'k' => Some(Piece::new(PieceType::King, b)),
        'q' => Some(Piece::new(PieceType::Queen, b)),
        'r' => Some(Piece::new(PieceType::Rook, b)),
        'b' => Some(Piece::new(PieceType::Bishop, b)),
        'n' => Some(Piece::new(PieceType::Knight, b)),
        'p' => Some(Piece::new(PieceType::Pawn, b)),
        _ => None,
    }
}

/// Once a prefix of a board field is malformed, so is the whole field.
proof fn lemma_scan_stays_none(s: Seq<char>, i: int)
    requires
        0 <= i <= s.len(),
        board_scan(s.take(i)) is None,
    ensures
        board_scan(s) is None,
    decreases s.len() - i,
{
    if i < s.len() {
        assert(s.take(i + 1).drop_last() =~= s.take(i));
        lemma_scan_stays_none(s, i + 1);
    } else {
        assert(s.take(i) =~= s);
    }
}

/// The board a FEN board field describes (see `placement`).
fn parse_placement(s: &Vec<char>) -> (r: Option<Vec<Option<Piece>>>)
    ensures
        match r {
            Some(t) => placement(s@) == Some(t@),
            None => placement(s@) is None,
        },
{
    let mut cells: Vec<Option<Piece>> = Vec::new();
    let mut ranks: i32 = 0;
    let mut file: i32 = 0;
    let mut i: usize = 0;
    while i < s.len()
        invariant
            i <= s@.len(),
            board_scan(s@.take(i as int)) == Some((cells@, ranks as int, file as int)),
            cells@.len() == ranks * 8 + file,
            0 <= file <= 8,
            0 <= ranks <= 7,
        decreases s@.len() - i,
    {
        let c = s[i];
        assert(s@.take(i + 1).drop_last() =~= s@.take(i as int));
        assert(s@.take(i + 1).last() == c);
        if c == '/' {
            if file == 8 && ranks < 7 {
                ranks = ranks + 1;
                file = 0;
            } else {
                proof {
                    lemma_scan_stays_none(s@, i + 1);
                }
                return None;
            }
        } else if '1' <= c && c <= '8' {
            let d: i32 = (c as u32 - '0' as u32) as i32;
            if file + d <= 8 {
                let ghost before = cells@;
                let mut k: i32 = 0;
                while k < d
                    invariant
                        0 <= k <= d,
                        cells@ == before + Seq::new(k as nat, |j: int| None::<Piece>),
                    decreases d - k,
                {
                    cells.push(None);
                    k = k + 1;
                    assert(cells@ =~= before + Seq::new(k as nat, |j: int| None::<Piece>));
                }
                file = file + d;
            } else {
                proof {
                    lemma_scan_stays_none(s@, i + 1);
                }
                return None;
            }
        } else {
            match piece_from_char(c) {
                Some(p) => {
                    if file < 8 {
                        cells.push(Some(p));
                        file = file + 1;
                    } else {
                        proof {
                            lemma_scan_stays_none(s@, i + 1);
                        }
                        return None;
                    }
                },
                None => {
                    proof {
                        lemma_scan_stays_none(s@, i + 1);
                    }
                    return None;
                },
            }
        }
        i = i + 1;
    }
    assert(s@.take(i as int) =~= s@);
    if !(ranks == 7 && file == 8) {
        return None;
    }
    let mut table: Vec<Option<Piece>> = Vec::new();
    let mut j: usize = 0;
    while j < 64
        invariant
            j <= 64,
            cells@.len() == 64,
            table@.len() == j,
            forall|k: int| 0 <= k < j ==> #[trigger] table@[k] == cells@[(7 - k / 8) * 8 + k % 8],
        decreases 64 - j,
    {
        table.push(cells[(7 - j / 8) * 8 + j % 8]);
        j = j + 1;
    }
    assert(table@ =~= Seq::new(64, |k: int| cells@[(7 - k / 8) * 8 + k % 8]));
    Some(table)
}

fn parse_color(f: &Vec<char>) -> (r: Option<PlayerType>)
    ensures
        r == color_field(f@),
{
    if f.len() == 1 && f[0] == 'w' {
        assert(f@ =~= seq!['w']);
        Some(PlayerType::White)
    } else if f.len() == 1 && f[0] == 'b' {
        assert(f@ =~= seq!['b']);
        Some(PlayerType::Black)
    } else {
        assert(f@ != seq!['w']);
        assert(f@ != seq!['b']);
        None
    }
}

fn has_char(f: &Vec<char>, c: char) -> (r: bool)
    ensures
        r == f@.contains(c),
{
    let mut i: usize = 0;
    while i < f.len()
        invariant
            i <= f@.len(),
            forall|k: int| 0 <= k < i ==> f@[k] != c,
        decreases f@.len() - i,
    {
        if f[i] == c {
            assert(f@[i as int] == c);
            return true;
        }
        i = i + 1;
    }
    false
}

fn parse_castling(f: &Vec<char>) -> (r: (bool, bool, bool, bool))
    ensures
        r == castling_field(f@),
{
    (has_char(f, 'K'), has_char(f, 'Q'), has_char(f, 'k'), has_char(f, 'q'))
}

fn parse_square(f: &Vec<char>) -> (r: Option<(usize, usize)>)
    ensures
        r == square_field(f@),
{
    if f.len() == 2 && 'a' <= f[0] && f[0] <= 'h' && '1' <= f[1] && f[1] <= '8' {
        Some(((f[0] as u32 - 'a' as u32) as usize, (f[1] as u32 - '1' as u32) as usize))
    } else {
        None
    }
}

fn parse_counter(f: &Vec<char>) -> (r: Option<u32>)
    ensures
        r == counter_field(f@),
{
    if f.len() == 0 {
        return None;
    }
    let mut v: u64 = 0;
    let mut i: usize = 0;
    while i < f.len()
        invariant
            i <= f@.len(),
            v == decimal_value(f@.take(i as int)),
            v <= u32::MAX,
            forall|k: int| 0 <= k < i ==> is_digit(#[trigger] f@[k]),
        decreases f@.len() - i,
    {
        let c = f[i];
        assert(f@.take(i + 1).drop_last() =~= f@.take(i as int));
        if !('0' <= c && c <= '9') {
            assert(!is_digit(f@[i as int]));
            return None;
        }
        let next: u64 = v * 10 + (c as u32 - '0' as u32) as u64;
        if next > u32::MAX as u64 {
            proof {
                assert(decimal_value(f@.take(i + 1)) == next);
                if forall|k: int| 0 <= k < f@.len() ==> is_digit(#[trigger] f@[k]) {
                    lemma_decimal_grows(f@, i as int + 1);
                }
            }
            return None;
        }
        v = next;
        i = i + 1;
    }
    assert(f@.take(i as int) =~= f@);
    Some(v as u32)
}

/// A longer run of digits has a value at least as large.
proof fn lemma_decimal_grows(f: Seq<char>, i: int)
    requires
        0 <= i <= f.len(),
        forall|k: int| 0 <= k < f.len() ==> is_digit(#[trigger] f[k]),
    ensures
        decimal_value(f) >= decimal_value(f.take(i)),
    decreases f.len() - i,
{
    if i < f.len() {
        lemma_decimal_grows(f, i + 1);
        assert(f.take(i + 1).drop_last() =~= f.take(i));
        lemma_decimal_nonneg(f.take(i));
    } else {
        assert(f.take(i) =~= f);
    }
}

proof fn lemma_decimal_nonneg(f: Seq<char>)
    requires
        forall|k: int| 0 <= k < f.len() ==> is_digit(#[trigger] f[k]),
    ensures
        decimal_value(f) >= 0,
    decreases f.len(),
{
    if f.len() > 0 {
        lemma_decimal_nonneg(f.drop_last());
    }
}

/// A square in algebraic notation (`e4`) as (file, rank), both from 0; `None`
/// for any other text.
pub fn pos_from_algebraic_notation(pos: &str) -> (r: Option<(usize, usize)>)
    ensures
        r == square_field(pos@),
{
    let cs = chars_of(pos);
    parse_square(&cs)
}

impl GameData {
    /// Reads a position from FEN text; `None` where a field is missing or malformed
    /// (see `parse_fen`).
    pub fn from_fen(fen: &str) -> (r: Option<GameData>)
        ensures
            match r {
                Some(d) => parse_fen(fen@) == Some(d.record()),
                None => parse_fen(fen@) is None,
            },
    {
        let cs = chars_of(fen);
        let fs = split_fields(&cs);
        if fs.len() < 6 {
            return None;
        }
        let table = match parse_placement(&fs[0]) {
            Some(t) => t,
            None => return None,
        };
        let active_color = match parse_color(&fs[1]) {
            Some(c) => c,
            None => return None,
        };
        let castling_availability = parse_castling(&fs[2]);
        let en_passant_target_square = parse_square(&fs[3]);
        let halfmove_clock = match parse_counter(&fs[4]) {
            Some(n) => n,
            None => return None,
        };
        let fullmove_number = match parse_counter(&fs[5]) {
            Some(n) => n,
            None => return None,
        };
        Some(GameData {
            table,
            active_color,
            castling_availability,
            en_passant_target_square,
            halfmove_clock,
            fullmove_number,
        })
    }
}

} // verus!
