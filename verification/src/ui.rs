//! What the screens show, computed from the state: clock readings, piece
//! glyphs, the board's cells, status lines and labels. The terminal
//! drawing itself is done by the application.
use vstd::prelude::*;
use crate::app::{App, is_target};
use crate::config::{HintStyle, PieceStyle};
use crate::game::board::{
    PieceKind, Position, Side, spec_checker_count, spec_color_on, spec_piece_on,
    spec_side_to_move,
};
use crate::game::clock::{MAX_NANOS, NANOS_PER_SEC};
use crate::game::san::{file_of, rank_of};
use crate::game::session::{Outcome, Session};
use crate::text::{
    all_digits, chars_of, decimal, decimal_padded, push_all, push_decimal_padded,
    push_decimal_wide, push_str_chars, split_chars, split_on, string_of,
};
use crate::game::pgn::{decimal_value, lemma_decimal_reads_back};

verus! {

/// `s` left-padded with spaces to at least `width` characters.
pub open spec fn space_padded(s: Seq<char>, width: nat) -> Seq<char> {
    if s.len() >= width {
        s
    } else {
        Seq::new((width - s.len()) as nat, |i: int| ' ') + s
    }
}

fn push_spaced(out: &mut Vec<char>, n: u128, width: usize)
    ensures
        final(out)@ == old(out)@ + space_padded(decimal(n as nat), width as nat),
{
    let mut digits: Vec<char> = Vec::new();
    push_decimal_wide(&mut digits, n);
    let ghost start = out@;
    if digits.len() < width {
        let pad = width - digits.len();
        let mut i: usize = 0;
        while i < pad
            invariant
                i <= pad,
                pad == width - digits@.len(),
                out@ == start + Seq::new(i as nat, |k: int| ' '),
            decreases pad - i,
        {
            out.push(' ');
            i = i + 1;
            assert(out@ =~= start + Seq::new(i as nat, |k: int| ' '));
        }
    }
    let ghost mid = out@;
    push_all(out, &digits);
    assert(out@ =~= start + space_padded(decimal(n as nat), width as nat));
}

/// A clock reading: "h:mm:ss" from an hour on, else "m:ss.t" with tenths;
/// the leading field is padded with spaces to two characters.
pub open spec fn clock_text(nanos: nat) -> Seq<char> {
    let secs = nanos / 1_000_000_000;
    if secs >= 3600 {
        space_padded(decimal(secs / 3600), 2) + seq![':'] + decimal_padded((secs % 3600) / 60, 2)
            + seq![':'] + decimal_padded(secs % 60, 2)
    } else {
        space_padded(decimal(secs / 60), 2) + seq![':'] + decimal_padded(secs % 60, 2) + seq!['.']
            + decimal(((nanos % 1_000_000_000) / 1_000_000) / 100)
    }
}

/// A two-digit field reads back as its number.
proof fn lemma_two_digits_read(n: nat)
    requires
        n < 100,
    ensures
        decimal_padded(n, 2).len() == 2,
        decimal_value(decimal_padded(n, 2)) == n,
{
    lemma_decimal_reads_back(n);
    let d = decimal(n);
    if n < 10 {
        assert(d.len() == 1);
        let z = Seq::new(1, |i: int| '0') + d;
        assert(decimal_padded(n, 2) == z);
        assert(z.drop_last() =~= seq!['0']);
        assert(seq!['0'].drop_last() =~= Seq::<char>::empty());
        assert(decimal_value(Seq::<char>::empty()) == 0);
        assert(('0' as int) == 48);
        assert(decimal_value(seq!['0']) == decimal_value(seq!['0'].drop_last()) * 10 + ((seq![
            '0',
        ].last() as int - 48) as nat));
        assert(decimal_value(seq!['0']) == 0);
        assert(z.last() == d.last());
        assert(d.drop_last() =~= Seq::<char>::empty());
        assert(decimal_value(d) == decimal_value(d.drop_last()) * 10 + ((d.last() as int - 48) as nat));
        assert(decimal_value(z) == decimal_value(z.drop_last()) * 10 + ((z.last() as int - 48) as nat));
    } else {
        lemma_decimal_reads_back(n / 10);
        assert(decimal(n / 10) == seq![crate::text::digit_char((n / 10) as int)]);
        assert(d == decimal(n / 10).push(crate::text::digit_char((n % 10) as int)));
        assert(d.len() == 2);
        assert(decimal_padded(n, 2) == d);
    }
}

/// A clock under an hour reads as minutes, ':', two-digit seconds, '.',
/// tenths: the minutes (after any padding space) read back as the whole
/// minutes left, the seconds as the seconds past them, the tenths as the
/// tenths of a second.
pub proof fn law_clock_text_reads_back(nanos: nat) -> (parts: (Seq<char>, Seq<char>, Seq<char>))
    requires
        nanos < 3_600_000_000_000,
    ensures
        clock_text(nanos) == parts.0 + seq![':'] + parts.1 + seq!['.'] + parts.2,
        parts.0.len() == 2 && parts.1.len() == 2 && parts.2.len() == 1,
        decimal_value(if parts.0[0] == ' ' {
            parts.0.drop_first()
        } else {
            parts.0
        }) == nanos / 1_000_000_000 / 60,
        decimal_value(parts.1) == nanos / 1_000_000_000 % 60,
        decimal_value(parts.2) == nanos % 1_000_000_000 / 100_000_000,
{
    let secs = nanos / 1_000_000_000;
    let mins = secs / 60;
    lemma_decimal_reads_back(mins);
    let dm = decimal(mins);
    let p = space_padded(dm, 2);
    if mins < 10 {
        assert(dm.len() == 1) by {
            assert(dm == seq![crate::text::digit_char(mins as int)]);
        }
        assert(p == Seq::new(1, |i: int| ' ') + dm);
        assert(p[0] == ' ');
        assert(p.drop_first() =~= dm);
    } else {
        assert(dm.len() == 2) by {
            lemma_decimal_reads_back(mins / 10);
            assert(decimal(mins / 10).len() == 1);
        }
        assert(p == dm);
        assert(p[0] != ' ');
    }
    lemma_two_digits_read(secs % 60);
    let q = decimal_padded(secs % 60, 2);
    let tenths = ((nanos % 1_000_000_000) / 1_000_000) / 100;
    assert(tenths == nanos % 1_000_000_000 / 100_000_000);
    lemma_decimal_reads_back(tenths);
    let t = decimal(tenths);
    assert(tenths < 10);
    assert(t == seq![crate::text::digit_char(tenths as int)]);
    assert(clock_text(nanos) == p + seq![':'] + q + seq!['.'] + t);
    assert(decimal_value(if p[0] == ' ' {
        p.drop_first()
    } else {
        p
    }) == mins);
    assert(decimal_value(q) == secs % 60);
    assert(decimal_value(t) == tenths);
    (p, q, t)
}

/// Format a remaining time given in nanoseconds.
pub fn fmt_clock(nanos: u128) -> (r: String)
    requires
        nanos <= MAX_NANOS,
    ensures
        r@ == clock_text(nanos as nat),
{
    let secs = nanos / NANOS_PER_SEC;
    let mut out: Vec<char> = Vec::new();
    if secs >= 3600 {
        push_spaced(&mut out, secs / 3600, 2);
        out.push(':');
        push_decimal_padded(&mut out, (secs % 3600) / 60, 2);
        out.push(':');
        push_decimal_padded(&mut out, secs % 60, 2);
    } else {
        push_spaced(&mut out, secs / 60, 2);
        out.push(':');
        push_decimal_padded(&mut out, secs % 60, 2);
        out.push('.');
        push_decimal_wide(&mut out, ((nanos % NANOS_PER_SEC) / 1_000_000) / 100);
    }
    string_of(&out)
}

/// The date shown for a history entry: "20260910-a1b2" gives "2026-09-10";
/// a name that does not start with eight digits is shown as it is.
pub open spec fn stem_date_spec(stem: Seq<char>) -> Seq<char> {
    let d = split_on(stem, '-')[0];
    if d.len() == 8 && all_digits(d) {
        d.subrange(0, 4) + seq!['-'] + d.subrange(4, 6) + seq!['-'] + d.subrange(6, 8)
    } else {
        stem
    }
}

pub fn stem_to_date(stem: &str) -> (r: String)
    ensures
        r@ == stem_date_spec(stem@),
{
    let v = chars_of(stem);
    let parts = split_chars(&v, '-');
    proof {
        crate::text::lemma_split_on_nonempty(stem@, '-');
    }
    let d = &parts[0];
    if d.len() != 8 {
        return string_of(&v);
    }
    let mut i: usize = 0;
    while i < 8
        invariant
            i <= 8,
            d@.len() == 8,
            d@ == split_on(stem@, '-')[0],
            v@ == stem@,
            forall|k: int| 0 <= k < i ==> '0' <= #[trigger] d@[k] <= '9',
        decreases 8 - i,
    {
        if !('0' <= d[i] && d[i] <= '9') {
            assert(!('0' <= d@[i as int] <= '9'));
            assert(!all_digits(d@));
            return string_of(&v);
        }
        i = i + 1;
    }
    let mut out: Vec<char> = Vec::new();
    out.push(d[0]);
    out.push(d[1]);
    out.push(d[2]);
    out.push(d[3]);
    out.push('-');
    out.push(d[4]);
    out.push(d[5]);
    out.push('-');
    out.push(d[6]);
    out.push(d[7]);
    assert(out@ =~= stem_date_spec(stem@));
    string_of(&out)
}

/// The glyph of a piece: chess symbols, or letters (upper case for white).
pub open spec fn piece_glyph(p: PieceKind, c: Side, style: PieceStyle) -> char {
    match style {
        PieceStyle::Unicode => match (c, p) {
            (Side::White, PieceKind::King) => '♔',
            (Side::White, PieceKind::Queen) => '♕',
            (Side::White, PieceKind::Rook) => '♖',
            (Side::White, PieceKind::Bishop) => '♗',
            (Side::White, PieceKind::Knight) => '♘',
            (Side::White, PieceKind::Pawn) => '♙',
            (Side::Black, PieceKind::King) => '♚',
            (Side::Black, PieceKind::Queen) => '♛',
            (Side::Black, PieceKind::Rook) => '♜',
            (Side::Black, PieceKind::Bishop) => '♝',
            (Side::Black, PieceKind::Knight) => '♞',
            (Side::Black, PieceKind::Pawn) => '♟',
        },
        PieceStyle::Ascii => {
            let upper = match p {
                PieceKind::King => 'K',
                PieceKind::Queen => 'Q',
                PieceKind::Rook => 'R',
                PieceKind::Bishop => 'B',
                PieceKind::Knight => 'N',
                PieceKind::Pawn => 'P',
            };
            match c {
                Side::White => upper,
                Side::Black => ((upper as u8) + 32) as char,
            }
        },
    }
}

fn glyph_char(p: PieceKind, c: Side, style: PieceStyle) -> (r: char)
    ensures
        r == piece_glyph(p, c, style),
{
    match style {
        PieceStyle::Unicode => match (c, p) {
            (Side::White, PieceKind::King) => '♔',
            (Side::White, PieceKind::Queen) => '♕',
            (Side::White, PieceKind::Rook) => '♖',
            (Side::White, PieceKind::Bishop) => '♗',
            (Side::White, PieceKind::Knight) => '♘',
            (Side::White, PieceKind::Pawn) => '♙',
            (Side::Black, PieceKind::King) => '♚',
            (Side::Black, PieceKind::Queen) => '♛',
            (Side::Black, PieceKind::Rook) => '♜',
            (Side::Black, PieceKind::Bishop) => '♝',
            (Side::Black, PieceKind::Knight) => '♞',
            (Side::Black, PieceKind::Pawn) => '♟',
        },
        PieceStyle::Ascii => {
            let upper: u8 = match p {
                PieceKind::King => 75,
                PieceKind::Queen => 81,
                PieceKind::Rook => 82,
                PieceKind::Bishop => 66,
                PieceKind::Knight => 78,
                PieceKind::Pawn => 80,
            };
            match c {
                Side::White => upper as char,
                Side::Black => (upper + 32) as char,
            }
        },
    }
}

/// The glyph of a piece as a string.
pub fn uni_piece(p: PieceKind, c: Side, style: PieceStyle) -> (r: String)
    ensures
        r@ == seq![piece_glyph(p, c, style)],
{
    let mut v: Vec<char> = Vec::new();
    v.push(glyph_char(p, c, style));
    assert(v@ =~= seq![piece_glyph(p, c, style)]);
    string_of(&v)
}

/// How many pieces of kind `p` and color `c` stand on the squares below `n`.
pub open spec fn count_pieces(fen: Seq<char>, p: PieceKind, c: Side, n: nat) -> nat
    decreases n,
{
    if n == 0 {
        0
    } else {
        count_pieces(fen, p, c, (n - 1) as nat) + if spec_piece_on(fen, (n - 1) as u8) == Some(p)
            && spec_color_on(fen, (n - 1) as u8) == Some(c) {
            1nat
        } else {
            0nat
        }
    }
}

/// One glyph per piece of kind `p` and color `c` missing from a full set
/// of `full`.
pub open spec fn missing_glyphs(fen: Seq<char>, p: PieceKind, c: Side, full: nat) -> Seq<char> {
    let have = count_pieces(fen, p, c, 64);
    if have < full {
        Seq::new((full - have) as nat, |i: int| piece_glyph(p, c, PieceStyle::Unicode))
    } else {
        seq![]
    }
}

/// The opponent's pieces missing from the board (captured by `by`), queens
/// first and pawns last, as chess symbols; a full set has one queen, two
/// rooks, bishops and knights, and eight pawns.
pub open spec fn captured_spec(fen: Seq<char>, by: Side) -> Seq<char> {
    let o = by.opp();
    missing_glyphs(fen, PieceKind::Queen, o, 1) + missing_glyphs(fen, PieceKind::Rook, o, 2)
        + missing_glyphs(fen, PieceKind::Bishop, o, 2) + missing_glyphs(fen, PieceKind::Knight, o, 2)
        + missing_glyphs(fen, PieceKind::Pawn, o, 8)
}

fn count_on_board(board: &Position, p: PieceKind, c: Side) -> (r: u32)
    ensures
        r == count_pieces(board@, p, c, 64),
{
    let mut n: u32 = 0;
    let mut sq: u8 = 0;
    while sq < 64
        invariant
            sq <= 64,
            n == count_pieces(board@, p, c, sq as nat),
            n <= sq,
        decreases 64 - sq,
    {
        let here = match (board.piece_on(sq), board.color_on(sq)) {
            (Some(q), Some(k)) => q == p && k == c,
            _ => false,
        };
        if here {
            n = n + 1;
        }
        sq = sq + 1;
    }
    n
}

fn push_missing(out: &mut Vec<char>, board: &Position, p: PieceKind, c: Side, full: u32)
    requires
        full <= 8,
    ensures
        final(out)@ == old(out)@ + missing_glyphs(board@, p, c, full as nat),
{
    let have = count_on_board(board, p, c);
    let g = glyph_char(p, c, PieceStyle::Unicode);
    let ghost start = out@;
    if have < full {
        let mut k: u32 = have;
        while k < full
            invariant
                have <= k <= full,
                out@ == start + Seq::new((k - have) as nat, |i: int| g),
            decreases full - k,
        {
            out.push(g);
            k = k + 1;
            assert(out@ =~= start + Seq::new((k - have) as nat, |i: int| g));
        }
    }
    assert(out@ =~= start + missing_glyphs(board@, p, c, full as nat));
}

/// Opponent pieces missing from the board (captured by `by`).
pub fn captured_string(board: &Position, by: Side) -> (r: String)
    ensures
        r@ == captured_spec(board@, by),
{
    let o = by.other();
    let mut out: Vec<char> = Vec::new();
    push_missing(&mut out, board, PieceKind::Queen, o, 1);
    push_missing(&mut out, board, PieceKind::Rook, o, 2);
    push_missing(&mut out, board, PieceKind::Bishop, o, 2);
    push_missing(&mut out, board, PieceKind::Knight, o, 2);
    push_missing(&mut out, board, PieceKind::Pawn, o, 8);
    string_of(&out)
}

/// The background of a board cell, in order of precedence: the king in
/// check, the squares of the last move, the cursor, then the checkerboard.
#[derive(Clone, Copy, PartialEq, Eq, Debug, Structural)]
pub enum Shade {
    Light,
    Dark,
    Cursor,
    LastMove,
    Check,
}

/// What a board cell holds: a piece of a color, a move hint, or nothing.
#[derive(Clone, Copy, PartialEq, Eq, Debug, Structural)]
pub enum Mark {
    Piece(Side),
    Hint,
    Empty,
}

/// One board cell as drawn.
#[derive(Clone, Copy, PartialEq, Eq, Debug, Structural)]
pub struct Cell {
    pub sq: u8,
    pub shade: Shade,
    pub glyph: char,
    pub mark: Mark,
}

/// The square drawn at visual row `vr` (top first) and column `vf` (left
/// first): white at the bottom, or black when flipped.
pub open spec fn cell_square(flip: bool, vr: int, vf: int) -> u8 {
    let rank = if flip {
        vr
    } else {
        7 - vr
    };
    let file = if flip {
        7 - vf
    } else {
        vf
    };
    (rank * 8 + file) as u8
}

pub open spec fn shade_spec(
    sq: u8,
    cursor: Option<u8>,
    last: Option<(u8, u8)>,
    check: Option<u8>,
) -> Shade {
    if check == Some(sq) {
        Shade::Check
    } else if (last matches Some((a, b)) && (sq == a || sq == b)) {
        Shade::LastMove
    } else if cursor == Some(sq) {
        Shade::Cursor
    } else if (file_of(sq) + rank_of(sq)) % 2 == 1 {
        Shade::Light
    } else {
        Shade::Dark
    }
}

/// A move hint is shown on `sq`: all hints are on, the game runs, and the
/// selected piece can move there.
pub open spec fn hint_on(a: App, sq: u8) -> bool {
    match (a.session, a.selected) {
        (Some(s), Some(from)) => a.config.show_hints == HintStyle::All && s.end is None && is_target(
            s.pos(),
            from,
            sq,
        ),
        _ => false,
    }
}

/// `t` lists exactly the squares that show a move hint.
pub open spec fn hints_listed(t: Seq<u8>, a: App, in_game: bool) -> bool {
    forall|x: u8| t.contains(x) <==> (in_game && hint_on(a, x))
}

/// The last move's squares, from the last record of the running game.
pub open spec fn last_squares(a: App) -> Option<(u8, u8)> {
    match a.session {
        Some(s) => if s.moves@.len() > 0 {
            crate::app::uci_squares_spec(vstd::utf8::encode_utf8(s.moves@.last().uci@))
        } else {
            None
        },
        None => None,
    }
}

/// The square of the king in check in the running game.
pub open spec fn check_spec(a: App) -> Option<u8> {
    match a.session {
        Some(s) => if spec_checker_count(s.pos()) > 0 {
            Some(crate::game::board::spec_king_square(s.pos(), spec_side_to_move(s.pos())))
        } else {
            None
        },
        None => None,
    }
}

/// The cell at visual row `vr` and column `vf` of the board `fen`. In a
/// game the orientation, cursor, last move, check and hints come from the
/// state; in a replay only the configured orientation applies.
pub open spec fn cell_spec(a: App, fen: Seq<char>, in_game: bool, vr: int, vf: int) -> Cell {
    let flip = if in_game {
        a.flipped_spec()
    } else {
        a.config.flip_board
    };
    let sq = cell_square(flip, vr, vf);
    let shade = if in_game {
        shade_spec(sq, a.cursor, last_squares(a), check_spec(a))
    } else {
        shade_spec(sq, None, None, None)
    };
    let (glyph, mark) = match spec_piece_on(fen, sq) {
        Some(p) => {
            let c = match spec_color_on(fen, sq) {
                Some(c) => c,
                None => Side::White,
            };
            (piece_glyph(p, c, a.config.piece_style), Mark::Piece(c))
        },
        None => if in_game && hint_on(a, sq) {
            ('◎', Mark::Hint)
        } else {
            (' ', Mark::Empty)
        },
    };
    Cell { sq, shade, glyph, mark }
}

/// The board as drawn: each of the 64 cells shows a different square; with
/// white at the bottom the top-left cell is a8 and the bottom-left a1, and
/// flipping turns the board half round (the square number becomes 63 minus
/// itself); a cell shows a piece mark of a color exactly when a piece of
/// that color stands on its square; outside a game, and on a square that is
/// not highlighted, the shade is light exactly on the light squares (file
/// plus rank odd, so h1 is light and a1 dark).
pub proof fn law_board_layout(a: App, fen: Seq<char>, in_game: bool, vr: int, vf: int, vr2: int, vf2: int)
    requires
        0 <= vr < 8 && 0 <= vf < 8,
        0 <= vr2 < 8 && 0 <= vf2 < 8,
    ensures
        ({
            let c = cell_spec(a, fen, in_game, vr, vf);
            let flip = if in_game {
                a.flipped_spec()
            } else {
                a.config.flip_board
            };
            &&& c.sq < 64
            &&& !flip ==> c.sq == (7 - vr) * 8 + vf
            &&& flip ==> c.sq == 63 - ((7 - vr) * 8 + vf)
            &&& (vr, vf) != (vr2, vf2) ==> c.sq != cell_spec(a, fen, in_game, vr2, vf2).sq
            &&& (spec_piece_on(fen, c.sq) is Some && spec_color_on(fen, c.sq) is Some) ==> c.mark
                == Mark::Piece(spec_color_on(fen, c.sq)->0)
            &&& spec_piece_on(fen, c.sq) is None ==> !(c.mark is Piece)
            &&& !in_game ==> (c.shade == Shade::Light <==> (c.sq % 8 + c.sq / 8) % 2 == 1)
        }),
{
}

/// The 64 cells of `board`, row by row from the top.
pub fn board_cells(a: &App, board: &Position, in_game: bool) -> (r: Vec<Cell>)
    requires
        a.inv(),
    ensures
        r@.len() == 64,
        forall|i: int| 0 <= i < 64 ==> #[trigger] r@[i] == cell_spec(*a, board@, in_game, i / 8, i % 8),
{
    let flip = if in_game {
        a.view_flipped()
    } else {
        a.config.flip_board
    };
    let targets: Vec<u8> = if in_game {
        a.selected_targets()
    } else {
        Vec::new()
    };
    let last = if in_game {
        a.last_move_squares()
    } else {
        None
    };
    let check = if in_game {
        a.check_square()
    } else {
        None
    };
    assert(hints_listed(targets@, *a, in_game)) by {
    assert forall|x: u8| targets@.contains(x) <==> (in_game && hint_on(*a, x)) by {
        if in_game {
            match (a.session, a.selected) {
                (Some(s), Some(from)) => {
                    assert(targets@.contains(x) <==> (a.config.show_hints == HintStyle::All && s.end is None && is_target(s.pos(), from, x)));
                },
                _ => {},
            }
        }
    }
    }
    let cursor = if in_game {
        a.cursor
    } else {
        None
    };
    let mut cells: Vec<Cell> = Vec::new();
    let mut vr: u8 = 0;
    while vr < 8
        invariant
            vr <= 8,
            cells@.len() == vr as int * 8,
            flip == (if in_game { a.flipped_spec() } else { a.config.flip_board }),
            cursor == (if in_game { a.cursor } else { None::<u8> }),
            last == (if in_game { last_squares(*a) } else { None::<(u8, u8)> }),
            check == (if in_game { check_spec(*a) } else { None::<u8> }),
            hints_listed(targets@, *a, in_game),
            forall|i: int| 0 <= i < cells@.len() ==> #[trigger] cells@[i] == cell_spec(*a, board@, in_game, i / 8, i % 8),
        decreases 8 - vr,
    {
        let mut vf: u8 = 0;
        while vf < 8
            invariant
                vr < 8,
                vf <= 8,
                cells@.len() == vr as int * 8 + vf as int,
                flip == (if in_game { a.flipped_spec() } else { a.config.flip_board }),
                cursor == (if in_game { a.cursor } else { None::<u8> }),
                last == (if in_game { last_squares(*a) } else { None::<(u8, u8)> }),
                check == (if in_game { check_spec(*a) } else { None::<u8> }),
                hints_listed(targets@, *a, in_game),
                forall|i: int| 0 <= i < cells@.len() ==> #[trigger] cells@[i] == cell_spec(*a, board@, in_game, i / 8, i % 8),
            decreases 8 - vf,
        {
            let rank: u8 = if flip {
                vr
            } else {
                7 - vr
            };
            let file: u8 = if flip {
                7 - vf
            } else {
                vf
            };
            let sq: u8 = rank * 8 + file;
            let shade = if check == Some(sq) {
                Shade::Check
            } else if match last {
                Some((x, y)) => sq == x || sq == y,
                None => false,
            } {
                Shade::LastMove
            } else if cursor == Some(sq) {
                Shade::Cursor
            } else if crate::game::san::square_is_light(sq) {
                Shade::Light
            } else {
                Shade::Dark
            };
            let (glyph, mark) = match board.piece_on(sq) {
                Some(p) => {
                    let c = match board.color_on(sq) {
                        Some(c) => c,
                        None => Side::White,
                    };
                    (glyph_char(p, c, a.config.piece_style), Mark::Piece(c))
                },
                None => {
                    let hint = in_game && crate::app::contains_square(&targets, sq);
                    if hint {
                        ('◎', Mark::Hint)
                    } else {
                        (' ', Mark::Empty)
                    }
                },
            };
            let cell = Cell { sq, shade, glyph, mark };
            let ghost i = vr as int * 8 + vf as int;
            assert(i / 8 == vr as int && i % 8 == vf as int);
            assert(cell == cell_spec(*a, board@, in_game, i / 8, i % 8));
            cells.push(cell);
            vf = vf + 1;
        }
        vr = vr + 1;
    }
    cells
}

/// The status line under the board: check warning, whose move it is in
/// a LAN game, and the key to flip the board.
pub open spec fn game_status_spec(s: Session) -> Seq<char> {
    let base = "tab flip"@;
    let m1 = if spec_checker_count(s.pos()) > 0 {
        "⚠ CHECK  "@ + base
    } else {
        base
    };
    if s.my_color is Some && s.end is None {
        (if s.my_turn_spec() {
            "your move"@
        } else {
            "waiting..."@
        }) + "  "@ + m1
    } else {
        m1
    }
}

/// In a running LAN game the status line opens with "your move" exactly when
/// the side to move is our color, and with "waiting..." otherwise.
pub proof fn law_status_shows_whose_turn(s: Session, mine: Side)
    requires
        s.my_color == Some(mine),
        s.end is None,
    ensures
        game_status_spec(s).take(9) == "your move"@ <==> spec_side_to_move(s.pos()) == mine,
        spec_side_to_move(s.pos()) != mine ==> game_status_spec(s).take(10) == "waiting..."@,
{
    reveal_strlit("your move");
    reveal_strlit("waiting...");
    reveal_strlit("  ");
    let line = game_status_spec(s);
    if spec_side_to_move(s.pos()) == mine {
        assert(line.take(9) =~= "your move"@);
    } else {
        let rest = "  "@ + (if spec_checker_count(s.pos()) > 0 {
            "⚠ CHECK  "@ + "tab flip"@
        } else {
            "tab flip"@
        });
        assert(line == "waiting..."@ + rest);
        assert(line.take(10) =~= "waiting..."@);
        assert(line.take(9)[0] == 'w');
        assert("your move"@[0] == 'y');
    }
}

pub fn game_status_line(s: &Session) -> (r: String)
    ensures
        r@ == game_status_spec(*s),
{
    let mut msg: Vec<char> = Vec::new();
    if s.board().checker_count() > 0 {
        push_str_chars(&mut msg, "⚠ CHECK  ");
    }
    push_str_chars(&mut msg, "tab flip");
    let mut out: Vec<char> = Vec::new();
    if s.my_color.is_some() && !s.is_over() {
        if s.is_my_turn() {
            push_str_chars(&mut out, "your move");
        } else {
            push_str_chars(&mut out, "waiting...");
        }
        push_str_chars(&mut out, "  ");
    }
    push_all(&mut out, &msg);
    assert(out@ =~= game_status_spec(*s));
    string_of(&out)
}

/// The line under the players' names: the result and why once over, else
/// the move number, the side to move and the time control.
pub open spec fn header_status_spec(s: Session) -> Seq<char> {
    match s.end {
        Some(e) => e.outcome.result_spec() + "  ("@ + e.reason@ + ")"@,
        None => "move "@ + decimal(s.moves@.len() / 2 + 1) + "  "@ + (if spec_side_to_move(s.pos())
            == Side::White {
            "white"@
        } else {
            "black"@
        }) + " to move  "@ + s.tc.label_spec(),
    }
}

/// The header line of a running game names the move number, which reads
/// back as the number of full moves played plus one, then the side to move
/// ("white" or "black"), then the time control's label; once the game is
/// over it opens with the result text.
pub proof fn law_header_reads_back(s: Session) -> (num: Seq<char>)
    ensures
        s.end is None ==> {
            &&& header_status_spec(s) == "move "@ + num + "  "@ + (if spec_side_to_move(s.pos())
                == Side::White {
                "white"@
            } else {
                "black"@
            }) + " to move  "@ + s.tc.label_spec()
            &&& num.len() > 0
            &&& decimal_value(num) == s.moves@.len() / 2 + 1
        },
        s.end matches Some(e) ==> header_status_spec(s).take(e.outcome.result_spec().len() as int)
            == e.outcome.result_spec(),
{
    let n = s.moves@.len() / 2 + 1;
    lemma_decimal_reads_back(n);
    match s.end {
        Some(e) => {
            let r = e.outcome.result_spec();
            let rest = "  ("@ + e.reason@ + ")"@;
            assert(header_status_spec(s) == r + rest);
            assert((r + rest).take(r.len() as int) =~= r);
        },
        None => {},
    }
    decimal(n)
}

pub fn header_status(s: &Session) -> (r: String)
    ensures
        r@ == header_status_spec(*s),
{
    let mut out: Vec<char> = Vec::new();
    match &s.end {
        Some(e) => {
            push_str_chars(&mut out, e.outcome.result_string());
            push_str_chars(&mut out, "  (");
            push_str_chars(&mut out, e.reason.as_str());
            push_str_chars(&mut out, ")");
        },
        None => {
            push_str_chars(&mut out, "move ");
            crate::text::push_decimal(&mut out, (s.moves.len() / 2 + 1) as u64);
            push_str_chars(&mut out, "  ");
            if s.side_to_move() == Side::White {
                push_str_chars(&mut out, "white");
            } else {
                push_str_chars(&mut out, "black");
            }
            push_str_chars(&mut out, " to move  ");
            let l = s.tc.label();
            push_str_chars(&mut out, l.as_str());
        },
    }
    assert(out@ =~= header_status_spec(*s));
    string_of(&out)
}

/// The headline of the game-over dialog.
pub open spec fn headline_spec(s: Session) -> Option<Seq<char>> {
    match s.end {
        Some(e) => Some(
            match e.outcome {
                Outcome::Win(c) => s.name_spec(c) + " wins — "@ + e.reason@,
                Outcome::Draw => "Draw — "@ + e.reason@,
            },
        ),
        None => None,
    }
}

pub fn game_over_headline(s: &Session) -> (r: Option<String>)
    ensures
        match (r, headline_spec(*s)) {
            (Some(t), Some(h)) => t@ == h,
            (None, None) => true,
            _ => false,
        },
{
    match &s.end {
        Some(e) => {
            let mut out: Vec<char> = Vec::new();
            match e.outcome {
                Outcome::Win(c) => {
                    push_str_chars(&mut out, s.name_of(c));
                    push_str_chars(&mut out, " wins — ");
                },
                Outcome::Draw => {
                    push_str_chars(&mut out, "Draw — ");
                },
            }
            push_str_chars(&mut out, e.reason.as_str());
            Some(string_of(&out))
        },
        None => None,
    }
}

/// The result shown in the history list: "½-½" for a draw, "*" for an
/// unknown result.
pub open spec fn result_glyph_spec(result: Seq<char>) -> Seq<char> {
    if result == "1-0"@ {
        "1-0"@
    } else if result == "0-1"@ {
        "0-1"@
    } else if result == "1/2-1/2"@ {
        "½-½"@
    } else {
        "*"@
    }
}

pub fn result_glyph(result: &str) -> (r: &'static str)
    ensures
        r@ == result_glyph_spec(result@),
{
    proof {
        reveal_strlit("1-0");
        reveal_strlit("0-1");
        reveal_strlit("1/2-1/2");
    }
    if crate::text::str_eq(result, "1-0") {
        "1-0"
    } else if crate::text::str_eq(result, "0-1") {
        "0-1"
    } else if crate::text::str_eq(result, "1/2-1/2") {
        "½-½"
    } else {
        "*"
    }
}

/// The label of a hint setting.
pub open spec fn hint_label_spec(h: HintStyle) -> Seq<char> {
    match h {
        HintStyle::All => "all legal moves"@,
        HintStyle::Cursor => "cursor only"@,
        HintStyle::Off => "off"@,
    }
}

pub fn hint_label(h: HintStyle) -> (r: &'static str)
    ensures
        r@ == hint_label_spec(h),
{
    match h {
        HintStyle::All => "all legal moves",
        HintStyle::Cursor => "cursor only",
        HintStyle::Off => "off",
    }
}

/// "on" or "off".
pub fn on_off(b: bool) -> (r: &'static str)
    ensures
        r@ == (if b {
            "on"@
        } else {
            "off"@
        }),
{
    if b {
        "on"
    } else {
        "off"
    }
}

/// The lobby's footer: its status message, or else how many players are
/// listed and our name.
pub open spec fn lobby_footer_spec(status: Seq<char>, peers: nat, name: Seq<char>) -> Seq<char> {
    if status.len() == 0 {
        decimal(peers) + " player(s) on the network   (you: "@ + name + ")"@
    } else {
        status
    }
}

pub fn lobby_footer(a: &App, peers: usize) -> (r: String)
    ensures
        r@ == lobby_footer_spec(a.lobby_status@, peers as nat, a.config.player_name@),
{
    let status = chars_of(a.lobby_status.as_str());
    if status.len() > 0 {
        return string_of(&status);
    }
    let mut out: Vec<char> = Vec::new();
    push_decimal_wide(&mut out, peers as u128);
    push_str_chars(&mut out, " player(s) on the network   (you: ");
    push_str_chars(&mut out, a.config.player_name.as_str());
    push_str_chars(&mut out, ")");
    string_of(&out)
}

} // verus!
