//! Export of a position as FEN text, and the proof that importing the text
//! gives the position back.
use vstd::prelude::*;

use crate::board::{idx, ChessBoard};
use crate::fen::{
    board_scan, castling_field, color_field, counter_field, decimal_value, digit_value, fields,
    fields_acc, is_digit, is_ws, parse_fen, piece_of_char, placement, scan_step, square_field,
};
use crate::game::{situation_of, GameState};
use crate::move_history::ChessMove;
use crate::position::{ChessPosition, Piece, PieceType, PlayerType};
use crate::rules::{legal_moves_from, play, Situation};

verus! {

/// The FEN letter of a piece: upper case for White, lower case for Black.
pub open spec fn char_of_piece(p: Piece) -> char {
    match (p.piece_kind, p.player_kind) {
        (PieceType::King, PlayerType::White) => 'K',
        (PieceType::Queen, PlayerType::White) => 'Q',
        (PieceType::Rook, PlayerType::White) => 'R',
        (PieceType::Bishop, PlayerType::White) => 'B',
        (PieceType::Knight, PlayerType::White) => 'N',
        (PieceType::Pawn, PlayerType::White) => 'P',
        (PieceType::King, PlayerType::Black) => 'k',
        (PieceType::Queen, PlayerType::Black) => 'q',
        (PieceType::Rook, PlayerType::Black) => 'r',
        (PieceType::Bishop, PlayerType::Black) => 'b',
        (PieceType::Knight, PlayerType::Black) => 'n',
        (PieceType::Pawn, PlayerType::Black) => 'p',
    }
}

/// The decimal digit of `n`, for `n` from 0 to 9.
pub open spec fn digit_char(n: int) -> char {
    if n <= 0 { '0' }
    else if n == 1 { '1' }
    else if n == 2 { '2' }
    else if n == 3 { '3' }
    else if n == 4 { '4' }
    else if n == 5 { '5' }
    else if n == 6 { '6' }
    else if n == 7 { '7' }
    else if n == 8 { '8' }
    else { '9' }
}

/// Text of rank `r` from file `f` on, where the `e` files before `f` are empty
/// and not yet written: a piece letter per piece, a digit per run of empty squares.
pub open spec fn rank_run(b: Seq<Option<Piece>>, r: int, f: int, e: int) -> Seq<char>
    decreases 8 - f,
{
    if f >= 8 {
        if e > 0 { seq![digit_char(e)] } else { Seq::empty() }
    } else {
        match b[idx(f, r)] {
            None => rank_run(b, r, f + 1, e + 1),
            Some(p) => (if e > 0 { seq![digit_char(e)] } else { Seq::empty() }) + seq![char_of_piece(p)]
                + rank_run(b, r, f + 1, 0),
        }
    }
}

/// Text of the `n` highest ranks, separated by `/`.
pub open spec fn ranks_text(b: Seq<Option<Piece>>, n: int) -> Seq<char>
    decreases n,
{
    if n <= 1 {
        rank_run(b, 7, 0, 0)
    } else {
        ranks_text(b, n - 1) + seq!['/'] + rank_run(b, 8 - n, 0, 0)
    }
}

/// The board field of FEN text for board `b` (row-major from the first rank).
pub open spec fn board_text(b: Seq<Option<Piece>>) -> Seq<char> {
    ranks_text(b, 8)
}

/// Rank `r` of `b`, a-file first.
pub open spec fn row(b: Seq<Option<Piece>>, r: int) -> Seq<Option<Piece>> {
    Seq::new(8, |f: int| b[idx(f, r)])
}

/// The squares of the `n` highest ranks of `b` in text order.
pub open spec fn text_cells(b: Seq<Option<Piece>>, n: int) -> Seq<Option<Piece>> {
    Seq::new((8 * n) as nat, |i: int| b[idx(i % 8, 7 - i / 8)])
}

/// Reading `t` on top of the reading `st`.
pub open spec fn scan_from(st: Option<(Seq<Option<Piece>>, int, int)>, t: Seq<char>) -> Option<(Seq<Option<Piece>>, int, int)>
    decreases t.len(),
{
    if t.len() == 0 {
        st
    } else {
        scan_step(scan_from(st, t.drop_last()), t.last())
    }
}

proof fn lemma_scan_concat(s: Seq<char>, t: Seq<char>)
    ensures
        board_scan(s + t) == scan_from(board_scan(s), t),
    decreases t.len(),
{
    if t.len() == 0 {
        assert(s + t =~= s);
    } else {
        lemma_scan_concat(s, t.drop_last());
        assert((s + t).drop_last() =~= s + t.drop_last());
        assert((s + t).last() == t.last());
    }
}

proof fn lemma_scan_from_concat(st: Option<(Seq<Option<Piece>>, int, int)>, t1: Seq<char>, t2: Seq<char>)
    ensures
        scan_from(st, t1 + t2) == scan_from(scan_from(st, t1), t2),
    decreases t2.len(),
{
    if t2.len() == 0 {
        assert(t1 + t2 =~= t1);
    } else {
        lemma_scan_from_concat(st, t1, t2.drop_last());
        assert((t1 + t2).drop_last() =~= t1 + t2.drop_last());
        assert((t1 + t2).last() == t2.last());
    }
}

proof fn lemma_scan_one(st: Option<(Seq<Option<Piece>>, int, int)>, c: char)
    ensures
        scan_from(st, seq![c]) == scan_step(st, c),
{
    assert(seq![c].drop_last() =~= Seq::<char>::empty());
    assert(scan_from(st, Seq::<char>::empty()) == st);
    assert(seq![c].last() == c);
}

/// Writing a run of `e` empty squares and reading it back.
proof fn lemma_scan_empties(cells: Seq<Option<Piece>>, k: int, file: int, e: int)
    requires
        1 <= e <= 8,
        0 <= file,
        file + e <= 8,
    ensures
        scan_from(Some((cells, k, file)), seq![digit_char(e)]) == Some(
            (cells + Seq::new(e as nat, |i: int| None::<Piece>), k, file + e),
        ),
{
    lemma_scan_one(Some((cells, k, file)), digit_char(e));
    assert(digit_value(digit_char(e)) == e);
}

/// Writing a piece letter and reading it back.
proof fn lemma_scan_piece(cells: Seq<Option<Piece>>, k: int, file: int, p: Piece)
    requires
        0 <= file < 8,
    ensures
        scan_from(Some((cells, k, file)), seq![char_of_piece(p)]) == Some((cells.push(Some(p)), k, file + 1)),
{
    lemma_scan_one(Some((cells, k, file)), char_of_piece(p));
    assert(piece_of_char(char_of_piece(p)) == Some(p));
}

/// Reading the text of rank `r` from file `f` on adds the rank's squares from
/// `f - e` on and fills the rank.
proof fn lemma_rank_run(b: Seq<Option<Piece>>, r: int, f: int, e: int, cells: Seq<Option<Piece>>, k: int)
    requires
        0 <= e <= f <= 8,
        0 <= r < 8,
        b.len() == 64,
        forall|g: int| f - e <= g < f ==> #[trigger] b[idx(g, r)] is None,
    ensures
        scan_from(Some((cells, k, f - e)), rank_run(b, r, f, e)) == Some(
            (cells + row(b, r).subrange(f - e, 8), k, 8int),
        ),
    decreases 8 - f,
{
    if f >= 8 {
        if e > 0 {
            lemma_scan_empties(cells, k, f - e, e);
            assert(Seq::new(e as nat, |i: int| None::<Piece>) =~= row(b, r).subrange(f - e, 8));
        } else {
            assert(row(b, r).subrange(f - e, 8) =~= Seq::<Option<Piece>>::empty());
            assert(cells + Seq::<Option<Piece>>::empty() =~= cells);
        }
    } else {
        match b[idx(f, r)] {
            None => {
                lemma_rank_run(b, r, f + 1, e + 1, cells, k);
            },
            Some(p) => {
                let pre = if e > 0 { seq![digit_char(e)] } else { Seq::<char>::empty() };
                let rest = rank_run(b, r, f + 1, 0);
                let nones = Seq::new(e as nat, |i: int| None::<Piece>);
                assert(rank_run(b, r, f, e) == pre + seq![char_of_piece(p)] + rest);
                lemma_scan_from_concat(Some((cells, k, f - e)), pre + seq![char_of_piece(p)], rest);
                lemma_scan_from_concat(Some((cells, k, f - e)), pre, seq![char_of_piece(p)]);
                if e > 0 {
                    lemma_scan_empties(cells, k, f - e, e);
                } else {
                    assert(cells + nones =~= cells);
                }
                lemma_scan_piece(cells + nones, k, f, p);
                lemma_rank_run(b, r, f + 1, 0, (cells + nones).push(Some(p)), k);
                assert((cells + nones).push(Some(p)) + row(b, r).subrange(f + 1, 8) =~= cells + row(b, r).subrange(f - e, 8));
            },
        }
    }
}

/// Reading the text of the `n` highest ranks gives their squares in text order.
proof fn lemma_ranks_text(b: Seq<Option<Piece>>, n: int)
    requires
        1 <= n <= 8,
        b.len() == 64,
    ensures
        board_scan(ranks_text(b, n)) == Some((text_cells(b, n), n - 1, 8int)),
    decreases n,
{
    let t = rank_run(b, 8 - n, 0, 0);
    if n == 1 {
        lemma_scan_concat(Seq::empty(), t);
        assert(Seq::<char>::empty() + t =~= t);
        lemma_rank_run(b, 7, 0, 0, Seq::empty(), 0);
        assert(Seq::<Option<Piece>>::empty() + row(b, 7).subrange(0, 8) =~= text_cells(b, 1));
    } else {
        lemma_ranks_text(b, n - 1);
        let prev = ranks_text(b, n - 1);
        lemma_scan_concat(prev, seq!['/']);
        lemma_scan_one(board_scan(prev), '/');
        lemma_scan_concat(prev + seq!['/'], t);
        lemma_rank_run(b, 8 - n, 0, 0, text_cells(b, n - 1), n - 1);
        assert(text_cells(b, n - 1) + row(b, 8 - n).subrange(0, 8) =~= text_cells(b, n));
    }
}

/// The board field written for a board reads back as that board.
pub proof fn lemma_board_text_round_trip(b: Seq<Option<Piece>>)
    requires
        b.len() == 64,
    ensures
        placement(board_text(b)) == Some(b),
{
    lemma_ranks_text(b, 8);
    let cells = text_cells(b, 8);
    assert forall|i: int| 0 <= i < 64 implies #[trigger] cells[(7 - i / 8) * 8 + i % 8] == b[i] by {
        let j = (7 - i / 8) * 8 + i % 8;
        assert(j % 8 == i % 8);
        assert(j / 8 == 7 - i / 8);
    }
    assert(Seq::new(64, |i: int| cells[(7 - i / 8) * 8 + i % 8]) =~= b);
}

pub open spec fn color_text(c: PlayerType) -> Seq<char> {
    match c {
        PlayerType::White => seq!['w'],
        PlayerType::Black => seq!['b'],
    }
}

/// The letters of the castling rights held, or `-` for none.
pub open spec fn castling_text(c: (bool, bool, bool, bool)) -> Seq<char> {
    let t = (if c.0 { seq!['K'] } else { Seq::empty() }) + (if c.1 { seq!['Q'] } else { Seq::empty() })
        + (if c.2 { seq!['k'] } else { Seq::empty() }) + (if c.3 { seq!['q'] } else { Seq::empty() });
    if t.len() == 0 {
        seq!['-']
    } else {
        t
    }
}

/// The letter of file `f`, from `a` for 0 to `h` for 7.
pub open spec fn file_char(f: int) -> char {
    if f <= 0 { 'a' }
    else if f == 1 { 'b' }
    else if f == 2 { 'c' }
    else if f == 3 { 'd' }
    else if f == 4 { 'e' }
    else if f == 5 { 'f' }
    else if f == 6 { 'g' }
    else { 'h' }
}

/// A square in algebraic notation, or `-` for none.
pub open spec fn square_text(p: Option<ChessPosition>) -> Seq<char> {
    match p {
        None => seq!['-'],
        Some(p) => seq![file_char(p.file as int), digit_char(p.rank + 1)],
    }
}

/// `n` in decimal digits.
pub open spec fn decimal_text(n: nat) -> Seq<char>
    decreases n,
{
    if n < 10 {
        seq![digit_char(n as int)]
    } else {
        decimal_text(n / 10).push(digit_char((n % 10) as int))
    }
}

/// The fields separated by single spaces.
pub open spec fn join_fields(fs: Seq<Seq<char>>) -> Seq<char>
    decreases fs.len(),
{
    if fs.len() == 0 {
        Seq::empty()
    } else if fs.len() == 1 {
        fs[0]
    } else {
        join_fields(fs.drop_last()) + seq![' '] + fs.last()
    }
}

/// FEN text of a position with the given move counters.
pub open spec fn fen_text(s: Situation, half: u32, full: u32) -> Seq<char> {
    join_fields(
        seq![
            board_text(s.board),
            color_text(s.active),
            castling_text(s.castling),
            square_text(s.en_passant),
            decimal_text(half as nat),
            decimal_text(full as nat),
        ],
    )
}

pub open spec fn no_ws(t: Seq<char>) -> bool {
    forall|i: int| 0 <= i < t.len() ==> !is_ws(#[trigger] t[i])
}

proof fn lemma_no_ws_concat(a: Seq<char>, b: Seq<char>)
    requires
        no_ws(a),
        no_ws(b),
    ensures
        no_ws(a + b),
{
    assert forall|i: int| 0 <= i < (a + b).len() implies !is_ws(#[trigger] (a + b)[i]) by {
        if i < a.len() {
            assert((a + b)[i] == a[i]);
        } else {
            assert((a + b)[i] == b[i - a.len()]);
        }
    }
}

/// Characters without whitespace extend the field in progress.
proof fn lemma_fields_acc_word(s: Seq<char>, t: Seq<char>)
    requires
        no_ws(t),
    ensures
        fields_acc(s + t) == (fields_acc(s).0, fields_acc(s).1 + t),
    decreases t.len(),
{
    if t.len() == 0 {
        assert(s + t =~= s);
        assert(fields_acc(s).1 + t =~= fields_acc(s).1);
    } else {
        lemma_fields_acc_word(s, t.drop_last());
        assert((s + t).drop_last() =~= s + t.drop_last());
        assert((s + t).last() == t.last());
        assert(!is_ws(t[t.len() - 1]));
        assert((fields_acc(s).1 + t.drop_last()).push(t.last()) =~= fields_acc(s).1 + t);
    }
}

/// Splitting joined fields gives the fields back, where none is empty or holds
/// whitespace.
proof fn lemma_join_fields(fs: Seq<Seq<char>>)
    requires
        fs.len() >= 1,
        forall|k: int| 0 <= k < fs.len() ==> (#[trigger] fs[k]).len() > 0 && no_ws(fs[k]),
    ensures
        fields_acc(join_fields(fs)) == (fs.drop_last(), fs.last()),
        fields(join_fields(fs)) == fs,
    decreases fs.len(),
{
    if fs.len() == 1 {
        lemma_fields_acc_word(Seq::empty(), fs[0]);
        assert(Seq::<char>::empty() + fs[0] =~= fs[0]);
        assert(Seq::<char>::empty() + fs[0] =~= fs[0]);
        assert(fs.drop_last() =~= Seq::<Seq<char>>::empty());
    } else {
        let prev = fs.drop_last();
        assert forall|k: int| 0 <= k < prev.len() implies (#[trigger] prev[k]).len() > 0 && no_ws(prev[k]) by {
            assert(prev[k] == fs[k]);
        }
        lemma_join_fields(prev);
        let sp = join_fields(prev) + seq![' '];
        assert(sp.drop_last() =~= join_fields(prev));
        assert(sp.last() == ' ');
        assert(fields_acc(sp) == (prev.drop_last().push(prev.last()), Seq::<char>::empty()));
        assert(prev.drop_last().push(prev.last()) =~= prev);
        assert(fs[fs.len() - 1] == fs.last());
        lemma_fields_acc_word(sp, fs.last());
        assert(Seq::<char>::empty() + fs.last() =~= fs.last());
    }
    assert(fs.drop_last().push(fs.last()) =~= fs);
}

proof fn lemma_rank_run_text(b: Seq<Option<Piece>>, r: int, f: int, e: int)
    requires
        0 <= e <= f <= 8,
    ensures
        no_ws(rank_run(b, r, f, e)),
        (f < 8 || e > 0) ==> rank_run(b, r, f, e).len() > 0,
    decreases 8 - f,
{
    if f < 8 {
        lemma_rank_run_text(b, r, f + 1, e + 1);
        lemma_rank_run_text(b, r, f + 1, 0);
        match b[idx(f, r)] {
            None => {},
            Some(p) => {
                let pre = if e > 0 { seq![digit_char(e)] } else { Seq::<char>::empty() };
                lemma_no_ws_concat(pre, seq![char_of_piece(p)]);
                lemma_no_ws_concat(pre + seq![char_of_piece(p)], rank_run(b, r, f + 1, 0));
            },
        }
    }
}

proof fn lemma_board_text_chars(b: Seq<Option<Piece>>, n: int)
    requires
        1 <= n <= 8,
    ensures
        no_ws(ranks_text(b, n)),
        ranks_text(b, n).len() > 0,
    decreases n,
{
    lemma_rank_run_text(b, 8 - n, 0, 0);
    if n > 1 {
        lemma_board_text_chars(b, n - 1);
        lemma_no_ws_concat(ranks_text(b, n - 1), seq!['/']);
        lemma_no_ws_concat(ranks_text(b, n - 1) + seq!['/'], rank_run(b, 8 - n, 0, 0));
    }
}

proof fn lemma_decimal_text(n: nat)
    ensures
        decimal_text(n).len() > 0,
        no_ws(decimal_text(n)),
        forall|i: int| 0 <= i < decimal_text(n).len() ==> is_digit(#[trigger] decimal_text(n)[i]),
        decimal_value(decimal_text(n)) == n,
    decreases n,
{
    if n < 10 {
        let t = seq![digit_char(n as int)];
        assert(t.drop_last() =~= Seq::<char>::empty());
        assert(decimal_value(Seq::<char>::empty()) == 0);
    } else {
        lemma_decimal_text(n / 10);
        let t = decimal_text(n / 10).push(digit_char((n % 10) as int));
        assert(t.drop_last() =~= decimal_text(n / 10));
        assert(forall|i: int| 0 <= i < t.len() - 1 ==> t[i] == decimal_text(n / 10)[i]);
    }
}

proof fn lemma_castling_text(c: (bool, bool, bool, bool))
    ensures
        castling_field(castling_text(c)) == c,
        castling_text(c).len() > 0,
        no_ws(castling_text(c)),
{
    let a = if c.0 { seq!['K'] } else { Seq::<char>::empty() };
    let b = if c.1 { seq!['Q'] } else { Seq::<char>::empty() };
    let d = if c.2 { seq!['k'] } else { Seq::<char>::empty() };
    let e = if c.3 { seq!['q'] } else { Seq::<char>::empty() };
    let t = a + b + d + e;
    let txt = castling_text(c);
    assert forall|i: int| 0 <= i < t.len() implies (#[trigger] t[i] == 'K' ==> c.0) && (t[i] == 'Q' ==> c.1)
        && (t[i] == 'k' ==> c.2) && (t[i] == 'q' ==> c.3) && !is_ws(t[i]) by {
        if i < a.len() {
            assert(t[i] == a[i]);
        } else if i < a.len() + b.len() {
            assert(t[i] == b[i - a.len()]);
        } else if i < a.len() + b.len() + d.len() {
            assert(t[i] == d[i - a.len() - b.len()]);
        } else {
            assert(t[i] == e[i - a.len() - b.len() - d.len()]);
        }
    }
    if c.0 {
        assert(t[0] == 'K');
    }
    if c.1 {
        assert(t[a.len() as int] == 'Q');
    }
    if c.2 {
        assert(t[(a.len() + b.len()) as int] == 'k');
    }
    if c.3 {
        assert(t[(a.len() + b.len() + d.len()) as int] == 'q');
    }
    if t.len() == 0 {
        assert(txt[0] == '-');
        assert(!c.0 && !c.1 && !c.2 && !c.3);
        assert(!txt.contains('K') && !txt.contains('Q') && !txt.contains('k') && !txt.contains('q'));
    }
}

/// Importing the exported FEN text of a position gives back its board, side to
/// move, castling rights, en passant square and counters.
pub proof fn lemma_fen_round_trip(s: Situation, half: u32, full: u32)
    requires
        s.board.len() == 64,
        s.en_passant matches Some(p) ==> p.valid(),
    ensures
        parse_fen(fen_text(s, half, full)) is Some,
        situation_of(parse_fen(fen_text(s, half, full)).unwrap()) == s,
        parse_fen(fen_text(s, half, full)).unwrap().halfmove == half,
        parse_fen(fen_text(s, half, full)).unwrap().fullmove == full,
{
    let fs = seq![
        board_text(s.board),
        color_text(s.active),
        castling_text(s.castling),
        square_text(s.en_passant),
        decimal_text(half as nat),
        decimal_text(full as nat),
    ];
    lemma_board_text_chars(s.board, 8);
    lemma_castling_text(s.castling);
    lemma_decimal_text(half as nat);
    lemma_decimal_text(full as nat);
    assert(no_ws(color_text(s.active)));
    assert(no_ws(square_text(s.en_passant)));
    assert forall|k: int| 0 <= k < fs.len() implies (#[trigger] fs[k]).len() > 0 && no_ws(fs[k]) by {}
    lemma_join_fields(fs);
    lemma_board_text_round_trip(s.board);
    assert(color_field(color_text(s.active)) == Some(s.active)) by {
        if s.active == PlayerType::Black {
            assert(color_text(s.active)[0] != seq!['w'][0]);
        }
    }
    assert(counter_field(decimal_text(half as nat)) == Some(half));
    assert(counter_field(decimal_text(full as nat)) == Some(full));
    let d = parse_fen(fen_text(s, half, full)).unwrap();
    match s.en_passant {
        Some(p) => {
            assert(square_field(square_text(s.en_passant)) == Some((p.file as usize, p.rank as usize)));
        },
        None => {
            assert(square_field(square_text(s.en_passant)) is None);
        },
    }
}

/// Exporting the position reached by any legal move and importing the text gives
/// back the board after the move.
pub proof fn lemma_board_round_trip_after_move(s: Situation, from: ChessPosition, m: ChessMove, half: u32, full: u32)
    requires
        s.board.len() == 64,
        m.valid(),
        legal_moves_from(s, from).contains(m),
    ensures
        parse_fen(fen_text(play(s, m), half, full)) is Some,
        parse_fen(fen_text(play(s, m), half, full)).unwrap().board == play(s, m).board,
{
    lemma_fen_round_trip(play(s, m), half, full);
}

/// Relies on collecting an iterator of `char` into a `String` (`FromIterator`):
/// the string holds the characters in order.
#[verifier::external_body]
fn string_from_chars(cs: &Vec<char>) -> (r: String)
    ensures
        r@ == cs@,
{
    cs.iter().collect()
}

fn piece_char(p: Piece) -> (c: char)
    ensures
        c == char_of_piece(p),
{
    match (p.piece_kind, p.player_kind) {
        (PieceType::King, PlayerType::White) => 'K',
        (PieceType::Queen, PlayerType::White) => 'Q',
        (PieceType::Rook, PlayerType::White) => 'R',
        (PieceType::Bishop, PlayerType::White) => 'B',
        (PieceType::Knight, PlayerType::White) => 'N',
        (PieceType::Pawn, PlayerType::White) => 'P',
        (PieceType::King, PlayerType::Black) => 'k',
        (PieceType::Queen, PlayerType::Black) => 'q',
        (PieceType::Rook, PlayerType::Black) => 'r',
        (PieceType::Bishop, PlayerType::Black) => 'b',
        (PieceType::Knight, PlayerType::Black) => 'n',
        (PieceType::Pawn, PlayerType::Black) => 'p',
    }
}

fn digit(n: u32) -> (c: char)
    requires
        n <= 9,
    ensures
        c == digit_char(n as int),
{
    if n == 0 { '0' }
    else if n == 1 { '1' }
    else if n == 2 { '2' }
    else if n == 3 { '3' }
    else if n == 4 { '4' }
    else if n == 5 { '5' }
    else if n == 6 { '6' }
    else if n == 7 { '7' }
    else if n == 8 { '8' }
    else { '9' }
}

fn push_rank(b: &ChessBoard, r: i32, out: &mut Vec<char>)
    requires
        b.wf(),
        0 <= r < 8,
    ensures
        final(out)@ == old(out)@ + rank_run(b@, r as int, 0, 0),
{
    let ghost target = old(out)@ + rank_run(b@, r as int, 0, 0);
    let mut f: i32 = 0;
    let mut e: u32 = 0;
    while f < 8
        invariant
            b.wf(),
            0 <= r < 8,
            0 <= e <= f <= 8,
            out@ + rank_run(b@, r as int, f as int, e as int) == target,
        decreases 8 - f,
    {
        let ghost before = out@;
        let ghost e0 = e;
        match b.get_at_index((r * 8 + f) as usize) {
            None => {
                e = e + 1;
            },
            Some(p) => {
                if e > 0 {
                    out.push(digit(e));
                }
                out.push(piece_char(p));
                e = 0;
            },
        }
        proof {
            let rest = rank_run(b@, r as int, f + 1, e as int);
            assert(before + rank_run(b@, r as int, f as int, e0 as int) =~= out@ + rest) by {
                if b@[idx(f as int, r as int)] is Some {
                    let p = b@[idx(f as int, r as int)].unwrap();
                    if e0 > 0 {
                        assert(out@ =~= before + seq![digit_char(e0 as int)] + seq![char_of_piece(p)]);
                    } else {
                        assert(out@ =~= before + seq![char_of_piece(p)]);
                    }
                }
            }
        }
        f = f + 1;
    }
    if e > 0 {
        out.push(digit(e));
    }
    assert(out@ =~= target);
}

fn push_decimal(n: u32, out: &mut Vec<char>)
    ensures
        final(out)@ == old(out)@ + decimal_text(n as nat),
    decreases n,
{
    if n >= 10 {
        push_decimal(n / 10, out);
    }
    out.push(digit(n % 10));
    assert(out@ =~= old(out)@ + decimal_text(n as nat));
}

fn push_text(t: &[char], out: &mut Vec<char>)
    ensures
        final(out)@ == old(out)@ + t@,
{
    let mut i: usize = 0;
    while i < t.len()
        invariant
            i <= t@.len(),
            out@ == old(out)@ + t@.take(i as int),
        decreases t@.len() - i,
    {
        out.push(t[i]);
        i = i + 1;
        assert(out@ =~= old(out)@ + t@.take(i as int));
    }
    assert(t@.take(i as int) =~= t@);
}

/// Six fields joined by single spaces.
proof fn lemma_join_six(a: Seq<char>, b: Seq<char>, c: Seq<char>, d: Seq<char>, e: Seq<char>, f: Seq<char>)
    ensures
        join_fields(seq![a, b, c, d, e, f]) == a + seq![' '] + b + seq![' '] + c + seq![' '] + d + seq![' '] + e
            + seq![' '] + f,
{
    let fs = seq![a, b, c, d, e, f];
    assert(fs.take(1).drop_last() =~= Seq::<Seq<char>>::empty());
    assert(join_fields(fs.take(1)) == a);
    assert(fs.take(2).drop_last() =~= fs.take(1));
    assert(fs.take(3).drop_last() =~= fs.take(2));
    assert(fs.take(4).drop_last() =~= fs.take(3));
    assert(fs.take(5).drop_last() =~= fs.take(4));
    assert(fs.drop_last() =~= fs.take(5));
    assert(join_fields(fs.take(2)) == a + seq![' '] + b);
    assert(join_fields(fs.take(3)) == a + seq![' '] + b + seq![' '] + c);
    assert(join_fields(fs.take(4)) == a + seq![' '] + b + seq![' '] + c + seq![' '] + d);
    assert(join_fields(fs.take(5)) == a + seq![' '] + b + seq![' '] + c + seq![' '] + d + seq![' '] + e);
}

fn push_castling(c: (bool, bool, bool, bool), out: &mut Vec<char>)
    ensures
        final(out)@ == old(out)@ + castling_text(c),
{
    if c.0 {
        out.push('K');
    }
    if c.1 {
        out.push('Q');
    }
    if c.2 {
        out.push('k');
    }
    if c.3 {
        out.push('q');
    }
    if !(c.0 || c.1 || c.2 || c.3) {
        out.push('-');
    }
    assert(out@ =~= old(out)@ + castling_text(c));
}

fn push_square(p: Option<ChessPosition>, out: &mut Vec<char>)
    requires
        p matches Some(q) ==> q.valid(),
    ensures
        final(out)@ == old(out)@ + square_text(p),
{
    match p {
        None => {
            out.push('-');
        },
        Some(p) => {
            let files: Vec<char> = vec!['a', 'b', 'c', 'd', 'e', 'f', 'g', 'h'];
            assert(files@[p.file as int] == file_char(p.file as int));
            out.push(files[p.file as usize]);
            out.push(digit((p.rank + 1) as u32));
        },
    }
    assert(out@ =~= old(out)@ + square_text(p));
}

fn push_board(b: &ChessBoard, out: &mut Vec<char>)
    requires
        b.wf(),
    ensures
        final(out)@ == old(out)@ + board_text(b@),
{
    let mut board: Vec<char> = Vec::new();
    push_rank(b, 7, &mut board);
    assert(board@ =~= ranks_text(b@, 1));
    let mut n: i32 = 2;
    while n <= 8
        invariant
            b.wf(),
            2 <= n <= 9,
            board@ == ranks_text(b@, n - 1),
        decreases 9 - n,
    {
        board.push('/');
        push_rank(b, 8 - n, &mut board);
        n = n + 1;
    }
    push_text(board.as_slice(), out);
}

impl GameState {
    /// The position as FEN text: board, side to move, castling rights, en passant
    /// square and the two counters.
    pub fn to_fen(&self) -> (r: String)
        requires
            self.wf(),
        ensures
            r@ == fen_text(self@, self.half_move_clock, self.full_move_no),
    {
        let mut out: Vec<char> = Vec::new();
        push_board(&self.board, &mut out);
        out.push(' ');
        out.push(match self.active_color {
            PlayerType::White => 'w',
            PlayerType::Black => 'b',
        });
        out.push(' ');
        push_castling(self.castling_availability, &mut out);
        out.push(' ');
        push_square(self.en_passant_target_square, &mut out);
        out.push(' ');
        push_decimal(self.half_move_clock, &mut out);
        out.push(' ');
        push_decimal(self.full_move_no, &mut out);
        proof {
            lemma_join_six(
                board_text(self.board@),
                color_text(self.active_color),
                castling_text(self.castling_availability),
                square_text(self.en_passant_target_square),
                decimal_text(self.half_move_clock as nat),
                decimal_text(self.full_move_no as nat),
            );
            assert(out@ =~= fen_text(self@, self.half_move_clock, self.full_move_no));
        }
        string_from_chars(&out)
    }
}

} // verus!
