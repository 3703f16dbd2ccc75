//! SAN (Standard Algebraic Notation) formatting and UCI parsing.
//!
//! Legality comes from the `chess` crate's move generator; this module only
//! picks letters, disambiguation and check markers.
use vstd::prelude::*;
use crate::game::board::{
    BoardStatus, Mv, PieceKind, Position, in_check_spec, is_legal, spec_after, spec_legal_moves,
    spec_checker_count, spec_piece_on, status_spec,
};
use crate::text::string_of;

verus! {

/// File (column) of a square, 0 = a.
pub open spec fn file_of(sq: u8) -> int {
    (sq % 8) as int
}

/// Rank (row) of a square, 0 = first rank.
pub open spec fn rank_of(sq: u8) -> int {
    (sq / 8) as int
}

pub open spec fn file_char_spec(f: int) -> char {
    ((97 + f) as u8) as char
}

pub open spec fn rank_char_spec(r: int) -> char {
    ((49 + r) as u8) as char
}

/// Coordinate name of a square, e.g. "e4".
pub open spec fn square_name(sq: u8) -> Seq<char> {
    seq![file_char_spec(file_of(sq)), rank_char_spec(rank_of(sq))]
}

/// Upper-case SAN letter of a piece.
pub open spec fn piece_letter_spec(p: PieceKind) -> char {
    match p {
        PieceKind::Pawn => 'P',
        PieceKind::Knight => 'N',
        PieceKind::Bishop => 'B',
        PieceKind::Rook => 'R',
        PieceKind::Queen => 'Q',
        PieceKind::King => 'K',
    }
}

/// Lower-case letter of a promotion piece, as UCI writes it.
pub open spec fn promo_letter_spec(p: PieceKind) -> char {
    match p {
        PieceKind::Pawn => 'p',
        PieceKind::Knight => 'n',
        PieceKind::Bishop => 'b',
        PieceKind::Rook => 'r',
        PieceKind::Queen => 'q',
        PieceKind::King => 'k',
    }
}

/// A move captures: its destination is occupied, or a pawn changes file (en passant).
pub open spec fn is_capture_spec(fen: Seq<char>, m: Mv) -> bool {
    ||| spec_piece_on(fen, m.to) is Some
    ||| (spec_piece_on(fen, m.from) == Some(PieceKind::Pawn) && file_of(m.from) != file_of(m.to))
}

/// Another legal move of the same kind of piece to the same destination.
pub open spec fn is_rival(fen: Seq<char>, m: Mv, r: Mv) -> bool {
    &&& r.to == m.to
    &&& r.from != m.from
    &&& spec_piece_on(fen, m.from) is Some
    &&& spec_piece_on(fen, r.from) == spec_piece_on(fen, m.from)
}

pub open spec fn has_rival(fen: Seq<char>, m: Mv) -> bool {
    exists|i: int|
        0 <= i < spec_legal_moves(fen).len() && is_rival(fen, m, #[trigger] spec_legal_moves(fen)[i])
}

pub open spec fn has_rival_same_file(fen: Seq<char>, m: Mv) -> bool {
    exists|i: int|
        0 <= i < spec_legal_moves(fen).len() && is_rival(fen, m, #[trigger] spec_legal_moves(fen)[i])
            && file_of(spec_legal_moves(fen)[i].from) == file_of(m.from)
}

pub open spec fn has_rival_same_rank(fen: Seq<char>, m: Mv) -> bool {
    exists|i: int|
        0 <= i < spec_legal_moves(fen).len() && is_rival(fen, m, #[trigger] spec_legal_moves(fen)[i])
            && rank_of(spec_legal_moves(fen)[i].from) == rank_of(m.from)
}

/// The minimal disambiguation among same-kind pieces that can reach the same square:
/// the source file if it tells them apart, else the source rank, else the whole square.
/// Pawns never get one.
pub open spec fn disambiguation_spec(fen: Seq<char>, m: Mv) -> Seq<char> {
    if !has_rival(fen, m) || spec_piece_on(fen, m.from) == Some(PieceKind::Pawn) {
        seq![]
    } else if !has_rival_same_file(fen, m) {
        seq![file_char_spec(file_of(m.from))]
    } else if !has_rival_same_rank(fen, m) {
        seq![rank_char_spec(rank_of(m.from))]
    } else {
        square_name(m.from)
    }
}

/// The piece that moves (a pawn when the square reads empty).
pub open spec fn moving_piece(fen: Seq<char>, m: Mv) -> PieceKind {
    match spec_piece_on(fen, m.from) {
        Some(p) => p,
        None => PieceKind::Pawn,
    }
}

pub open spec fn is_castle_spec(fen: Seq<char>, m: Mv) -> bool {
    moving_piece(fen, m) == PieceKind::King && (file_of(m.from) - file_of(m.to) == 2 || file_of(
        m.to,
    ) - file_of(m.from) == 2)
}

/// SAN without the check marker.
pub open spec fn san_body(fen: Seq<char>, m: Mv) -> Seq<char> {
    if is_castle_spec(fen, m) {
        if file_of(m.to) > file_of(m.from) {
            seq!['O', '-', 'O']
        } else {
            seq!['O', '-', 'O', '-', 'O']
        }
    } else {
        let cap = is_capture_spec(fen, m);
        let main = if moving_piece(fen, m) == PieceKind::Pawn {
            (if cap {
                seq![file_char_spec(file_of(m.from)), 'x']
            } else {
                seq![]
            }) + square_name(m.to)
        } else {
            seq![piece_letter_spec(moving_piece(fen, m))] + disambiguation_spec(fen, m) + (if cap {
                seq!['x']
            } else {
                seq![]
            }) + square_name(m.to)
        };
        main + match m.promo {
            Some(p) => seq!['=', piece_letter_spec(p)],
            None => seq![],
        }
    }
}

/// "#" when the move mates, "+" when it only checks, nothing otherwise.
pub open spec fn san_suffix(fen: Seq<char>, m: Mv) -> Seq<char> {
    let after = spec_after(fen, m);
    if in_check_spec(after) {
        if status_spec(after) == BoardStatus::Checkmate {
            seq!['#']
        } else {
            seq!['+']
        }
    } else {
        seq![]
    }
}

/// The SAN of a legal move.
pub open spec fn san_spec(fen: Seq<char>, m: Mv) -> Seq<char> {
    san_body(fen, m) + san_suffix(fen, m)
}

/// The UCI text of a move, e.g. "e2e4" or "e7e8q".
pub open spec fn uci_spec(m: Mv) -> Seq<char> {
    square_name(m.from) + square_name(m.to) + match m.promo {
        Some(p) => seq![promo_letter_spec(p)],
        None => seq![],
    }
}

pub open spec fn is_file_byte(b: u8) -> bool {
    97 <= b <= 104
}

pub open spec fn is_rank_byte(b: u8) -> bool {
    49 <= b <= 56
}

pub open spec fn square_of_bytes(f: u8, r: u8) -> u8 {
    ((r - 49) * 8 + (f - 97)) as u8
}

pub open spec fn promo_of_byte(b: u8) -> Option<PieceKind> {
    if b == 113 {
        Some(PieceKind::Queen)
    } else if b == 114 {
        Some(PieceKind::Rook)
    } else if b == 98 {
        Some(PieceKind::Bishop)
    } else if b == 110 {
        Some(PieceKind::Knight)
    } else {
        None
    }
}

/// The move a UCI text (as bytes) denotes, if it is legal in the position.
pub open spec fn uci_move_spec(fen: Seq<char>, u: Seq<u8>) -> Option<Mv> {
    if u.len() != 4 && u.len() != 5 {
        None
    } else if !(is_file_byte(u[0]) && is_rank_byte(u[1]) && is_file_byte(u[2]) && is_rank_byte(
        u[3],
    )) {
        None
    } else {
        let m = Mv {
            from: square_of_bytes(u[0], u[1]),
            to: square_of_bytes(u[2], u[3]),
            promo: if u.len() == 5 {
                promo_of_byte(u[4])
            } else {
                None
            },
        };
        if is_legal(fen, m) {
            Some(m)
        } else {
            None
        }
    }
}

fn file_char(sq: u8) -> (c: char)
    requires
        sq < 64,
    ensures
        c == file_char_spec(file_of(sq)),
{
    ((97 + sq % 8) as u8) as char
}

fn rank_char(sq: u8) -> (c: char)
    requires
        sq < 64,
    ensures
        c == rank_char_spec(rank_of(sq)),
{
    ((49 + sq / 8) as u8) as char
}

/// Append the coordinate name of a square.
pub fn push_square(out: &mut Vec<char>, sq: u8)
    requires
        sq < 64,
    ensures
        final(out)@ == old(out)@ + square_name(sq),
{
    out.push(file_char(sq));
    out.push(rank_char(sq));
    assert(out@ =~= old(out)@ + square_name(sq));
}

/// Upper-case letter of a piece.
pub fn piece_letter(p: PieceKind) -> (c: char)
    ensures
        c == piece_letter_spec(p),
{
    match p {
        PieceKind::Pawn => 'P',
        PieceKind::Knight => 'N',
        PieceKind::Bishop => 'B',
        PieceKind::Rook => 'R',
        PieceKind::Queen => 'Q',
        PieceKind::King => 'K',
    }
}

fn promo_letter(p: PieceKind) -> (c: char)
    ensures
        c == promo_letter_spec(p),
{
    match p {
        PieceKind::Pawn => 'p',
        PieceKind::Knight => 'n',
        PieceKind::Bishop => 'b',
        PieceKind::Rook => 'r',
        PieceKind::Queen => 'q',
        PieceKind::King => 'k',
    }
}

fn is_capture(board: &Position, m: Mv) -> (r: bool)
    requires
        m.on_board(),
    ensures
        r == is_capture_spec(board@, m),
{
    if board.piece_on(m.to).is_some() {
        return true;
    }
    match board.piece_on(m.from) {
        Some(PieceKind::Pawn) => m.from % 8 != m.to % 8,
        _ => false,
    }
}

/// Append the minimal SAN disambiguation of `m` among same-kind pieces
/// that can legally reach the same destination.
fn push_disambiguation(out: &mut Vec<char>, board: &Position, m: Mv)
    requires
        m.on_board(),
    ensures
        final(out)@ == old(out)@ + disambiguation_spec(board@, m),
{
    let ghost fen = board@;
    let piece = board.piece_on(m.from);
    let moves = board.legal_moves();
    let mut any = false;
    let mut same_file = false;
    let mut same_rank = false;
    let mut i: usize = 0;
    while i < moves.len()
        invariant
            i <= moves@.len(),
            moves@ == spec_legal_moves(fen),
            fen == board@,
            piece == spec_piece_on(fen, m.from),
            m.on_board(),
            forall|k: int| 0 <= k < moves@.len() ==> (#[trigger] moves@[k]).on_board(),
            any == exists|k: int| 0 <= k < i && is_rival(fen, m, #[trigger] moves@[k]),
            same_file == exists|k: int|
                0 <= k < i && is_rival(fen, m, #[trigger] moves@[k]) && file_of(moves@[k].from)
                    == file_of(m.from),
            same_rank == exists|k: int|
                0 <= k < i && is_rival(fen, m, #[trigger] moves@[k]) && rank_of(moves@[k].from)
                    == rank_of(m.from),
        decreases moves@.len() - i,
    {
        let r = moves[i];
        let rival = r.to == m.to && r.from != m.from && piece.is_some() && board.piece_on(r.from)
            == piece;
        if rival {
            any = true;
            if r.from % 8 == m.from % 8 {
                same_file = true;
            }
            if r.from / 8 == m.from / 8 {
                same_rank = true;
            }
        }
        i = i + 1;
    }
    if !any || piece == Some(PieceKind::Pawn) {
        return;
    }
    if !same_file {
        out.push(file_char(m.from));
        assert(out@ =~= old(out)@ + disambiguation_spec(fen, m));
    } else if !same_rank {
        out.push(rank_char(m.from));
        assert(out@ =~= old(out)@ + disambiguation_spec(fen, m));
    } else {
        push_square(out, m.from);
    }
}

/// Format `m` (legal in `board`) as SAN, e.g. "Nbd2", "exd5", "O-O", "e8=Q+".
pub fn san(board: &Position, m: Mv) -> (r: String)
    requires
        is_legal(board@, m),
        m.on_board(),
    ensures
        r@ == san_spec(board@, m),
{
    let ghost fen = board@;
    let piece = match board.piece_on(m.from) {
        Some(p) => p,
        None => PieceKind::Pawn,
    };
    let mut out: Vec<char> = Vec::new();
    let ff = m.from % 8;
    let tf = m.to % 8;
    if piece == PieceKind::King && (ff + 2 == tf || tf + 2 == ff) {
        if tf > ff {
            out.push('O');
            out.push('-');
            out.push('O');
        } else {
            out.push('O');
            out.push('-');
            out.push('O');
            out.push('-');
            out.push('O');
        }
        assert(out@ =~= san_body(fen, m));
    } else {
        let capture = is_capture(board, m);
        if piece == PieceKind::Pawn {
            if capture {
                out.push(file_char(m.from));
                out.push('x');
            }
            push_square(&mut out, m.to);
        } else {
            out.push(piece_letter(piece));
            push_disambiguation(&mut out, board, m);
            if capture {
                out.push('x');
            }
            push_square(&mut out, m.to);
        }
        let ghost main = out@;
        match m.promo {
            Some(p) => {
                out.push('=');
                out.push(piece_letter(p));
            },
            None => {},
        }
        assert(out@ =~= san_body(fen, m));
    }
    let ghost body = out@;
    let after = board.after(m);
    if after.checker_count() > 0 {
        if after.status() == BoardStatus::Checkmate {
            out.push('#');
        } else {
            out.push('+');
        }
    }
    assert(out@ =~= body + san_suffix(fen, m));
    string_of(&out)
}

/// Parse a UCI move text ("e2e4", "e7e8q") against `board`: `Some` exactly
/// when the text names a legal move.
pub fn uci_to_move(board: &Position, uci: &str) -> (r: Option<Mv>)
    ensures
        r == uci_move_spec(board@, vstd::utf8::encode_utf8(uci@)),
        r matches Some(m) ==> m.on_board() && is_legal(board@, m),
{
    let bytes = uci.as_bytes();
    let n = bytes.len();
    if n != 4 && n != 5 {
        return None;
    }
    let (f0, r0, f1, r1) = (bytes[0], bytes[1], bytes[2], bytes[3]);
    if !(97 <= f0 && f0 <= 104 && 49 <= r0 && r0 <= 56 && 97 <= f1 && f1 <= 104 && 49 <= r1 && r1
        <= 56) {
        return None;
    }
    let promo = if n == 5 {
        let b = bytes[4];
        if b == 113 {
            Some(PieceKind::Queen)
        } else if b == 114 {
            Some(PieceKind::Rook)
        } else if b == 98 {
            Some(PieceKind::Bishop)
        } else if b == 110 {
            Some(PieceKind::Knight)
        } else {
            None
        }
    } else {
        None
    };
    let m = Mv { from: (r0 - 49) * 8 + (f0 - 97), to: (r1 - 49) * 8 + (f1 - 97), promo };
    if move_gen_contains(board, m) {
        Some(m)
    } else {
        None
    }
}

/// Whether `m` is among the legal moves.
pub fn move_gen_contains(board: &Position, m: Mv) -> (r: bool)
    ensures
        r == is_legal(board@, m),
{
    let moves = board.legal_moves();
    let mut i: usize = 0;
    while i < moves.len()
        invariant
            i <= moves@.len(),
            moves@ == spec_legal_moves(board@),
            forall|k: int| 0 <= k < i ==> moves@[k] != m,
        decreases moves@.len() - i,
    {
        if moves[i] == m {
            assert(moves@[i as int] == m);
            return true;
        }
        i = i + 1;
    }
    assert(!moves@.contains(m));
    false
}

/// The UCI text of a move.
pub fn move_to_uci(m: Mv) -> (r: String)
    requires
        m.on_board(),
    ensures
        r@ == uci_spec(m),
{
    let mut out: Vec<char> = Vec::new();
    push_square(&mut out, m.from);
    push_square(&mut out, m.to);
    match m.promo {
        Some(p) => out.push(promo_letter(p)),
        None => {},
    }
    assert(out@ =~= uci_spec(m));
    string_of(&out)
}

/// Color of a square for checkerboard shading: light when file + rank is odd.
pub fn square_is_light(sq: u8) -> (r: bool)
    requires
        sq < 64,
    ensures
        r == ((file_of(sq) + rank_of(sq)) % 2 == 1),
{
    (sq % 8 + sq / 8) % 2 == 1
}

/// UCI round trip: a legal move written as UCI parses back to the same move
/// (for moves without promotion or promoting to queen, rook, bishop or knight).
pub proof fn law_uci_roundtrip(fen: Seq<char>, m: Mv)
    requires
        is_legal(fen, m),
        m.on_board(),
        m.promo is None || m.promo == Some(PieceKind::Queen) || m.promo == Some(PieceKind::Rook)
            || m.promo == Some(PieceKind::Bishop) || m.promo == Some(PieceKind::Knight),
    ensures
        uci_move_spec(fen, vstd::utf8::encode_utf8(uci_spec(m))) == Some(m),
{
    let u = uci_spec(m);
    assert(vstd::utf8::is_ascii_chars(u));
    vstd::utf8::is_ascii_chars_encode_utf8(u);
    let b = vstd::utf8::encode_utf8(u);
    assert(b[0] == u[0] as u8);
    assert(b[1] == u[1] as u8);
    assert(b[2] == u[2] as u8);
    assert(b[3] == u[3] as u8);
    assert(square_of_bytes(b[0], b[1]) == m.from);
    assert(square_of_bytes(b[2], b[3]) == m.to);
    if m.promo is Some {
        assert(b[4] == u[4] as u8);
    }
}

/// A move onto an occupied square is written as a capture: whichever piece
/// moves, its SAN holds an 'x' followed straight away by the destination's
/// file letter ('a' to 'h') and rank digit ('1' to '8').
pub proof fn law_capture_is_marked(fen: Seq<char>, m: Mv)
    requires
        m.on_board(),
        spec_piece_on(fen, m.to) is Some,
        !is_castle_spec(fen, m),
    ensures
        exists|k: int|
            0 <= k && k + 2 < san_spec(fen, m).len() && san_spec(fen, m)[k] == 'x'
                && #[trigger] san_spec(fen, m)[k + 1] == ((97 + m.to % 8) as u8) as char
                && san_spec(fen, m)[k + 2] == ((49 + m.to / 8) as u8) as char,
{
    let body = san_body(fen, m);
    let sfx = san_suffix(fen, m);
    let sq = square_name(m.to);
    let main = if moving_piece(fen, m) == PieceKind::Pawn {
        seq![file_char_spec(file_of(m.from)), 'x'] + sq
    } else {
        seq![piece_letter_spec(moving_piece(fen, m))] + disambiguation_spec(fen, m) + seq!['x'] + sq
    };
    let pr = match m.promo {
        Some(p) => seq!['=', piece_letter_spec(p)],
        None => seq![],
    };
    assert(body == main + pr);
    let k: int = if moving_piece(fen, m) == PieceKind::Pawn {
        1
    } else {
        1 + disambiguation_spec(fen, m).len() as int
    };
    let full = main + pr + sfx;
    assert(san_spec(fen, m) == full);
    assert(main.len() == k + 3);
    assert(full[k] == main[k]);
    assert(full[k + 1] == main[k + 1]);
    assert(full[k + 2] == main[k + 2]);
    assert(main[k] == 'x');
    assert(main[k + 1] == sq[0]);
    assert(main[k + 2] == sq[1]);
    assert(sq[0] == ((97 + m.to % 8) as u8) as char);
    assert(sq[1] == ((49 + m.to / 8) as u8) as char);
}

/// The SAN of a move ends in '#' when it mates, in '+' when it gives check
/// without mating, and in neither otherwise.
pub proof fn law_check_marks(fen: Seq<char>, m: Mv)
    ensures
        san_spec(fen, m).len() > 0,
        ({
            let s = san_spec(fen, m);
            let after = spec_after(fen, m);
            &&& spec_checker_count(after) > 0 && spec_legal_moves(after).len() == 0 ==> s.last() == '#'
            &&& spec_checker_count(after) > 0 && spec_legal_moves(after).len() > 0 ==> s.last() == '+'
            &&& spec_checker_count(after) == 0 ==> s.last() != '#' && s.last() != '+'
        }),
{
    let body = san_body(fen, m);
    assert(body.len() > 0);
    assert(body.last() != '#' && body.last() != '+') by {
        if !is_castle_spec(fen, m) {
            let sq = square_name(m.to);
            match m.promo {
                Some(p) => {},
                None => {
                    assert(body.last() == sq[1]);
                },
            }
        }
    }
}

proof fn lemma_no_x_concat(a: Seq<char>, b: Seq<char>)
    requires
        !a.contains('x'),
        !b.contains('x'),
    ensures
        !(a + b).contains('x'),
{
    if (a + b).contains('x') {
        let k = choose|k: int| 0 <= k < (a + b).len() && (a + b)[k] == 'x';
        if k < a.len() {
            assert(a[k] == 'x');
        } else {
            assert(b[k - a.len()] == 'x');
        }
    }
}

proof fn lemma_no_x_small(s: Seq<char>)
    requires
        s.len() <= 2,
        forall|i: int| 0 <= i < s.len() ==> #[trigger] s[i] != 'x',
    ensures
        !s.contains('x'),
{
}

/// A move onto an empty square that is no pawn capture (en passant) is
/// written without an 'x' anywhere in its SAN.
pub proof fn law_quiet_move_unmarked(fen: Seq<char>, m: Mv)
    requires
        m.on_board(),
        spec_piece_on(fen, m.to) is None,
        !(spec_piece_on(fen, m.from) == Some(PieceKind::Pawn) && m.from % 8 != m.to % 8),
    ensures
        !san_spec(fen, m).contains('x'),
{
    let sq = square_name(m.to);
    lemma_no_x_small(sq);
    let pr = match m.promo {
        Some(p) => seq!['=', piece_letter_spec(p)],
        None => seq![],
    };
    lemma_no_x_small(pr);
    let sfx = san_suffix(fen, m);
    lemma_no_x_small(sfx);
    let body = san_body(fen, m);
    if is_castle_spec(fen, m) {
        if body.contains('x') {
            let k = choose|k: int| 0 <= k < body.len() && body[k] == 'x';
        }
    } else if moving_piece(fen, m) == PieceKind::Pawn {
        assert(!is_capture_spec(fen, m));
        assert(body == seq![] + sq + pr);
        assert(seq![] + sq =~= sq);
        lemma_no_x_concat(sq, pr);
    } else {
        let l = seq![piece_letter_spec(moving_piece(fen, m))];
        lemma_no_x_small(l);
        let d = disambiguation_spec(fen, m);
        let fsq = square_name(m.from);
        lemma_no_x_small(fsq);
        lemma_no_x_small(seq![file_char_spec(file_of(m.from))]);
        lemma_no_x_small(seq![rank_char_spec(rank_of(m.from))]);
        assert(!d.contains('x'));
        assert(!is_capture_spec(fen, m));
        assert(body == l + d + seq![] + sq + pr);
        assert(l + d + seq![] =~= l + d);
        lemma_no_x_concat(l, d);
        lemma_no_x_concat(l + d, sq);
        lemma_no_x_concat(l + d + sq, pr);
    }
    lemma_no_x_concat(body, sfx);
}

} // verus!
