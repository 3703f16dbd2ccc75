//! PGN generation and parsing, plus move-by-move replay.
//!
//! The generated PGN holds the Seven Tag Roster plus a few informational
//! tags. Parsing is deliberately minimal: headers as `Key "Value"` lines,
//! then a movetext of SAN tokens with `;`/`{}` comments stripped.
use vstd::prelude::*;
use crate::game::board::{Position, spec_after, spec_from_san, start_fen};
use crate::game::session::{MoveRecord, Session};
use crate::text::{
    chars_of, decimal, push_all, push_decimal, push_str_chars, slice, split_chars,
    split_on, string_of, trim, trim_end, trim_end_spec, trim_spec, words, words_spec, lines,
    lines_spec, is_ws, words_acc,
};

verus! {

/// A header line `[key "value"]`.
pub open spec fn tag_line(key: Seq<char>, value: Seq<char>) -> Seq<char> {
    seq!['['] + key + seq![' ', '"'] + value + seq!['"', ']', '\n']
}

pub open spec fn escape_char(c: char) -> Seq<char> {
    if c == '\\' {
        seq!['\\', '\\']
    } else if c == '"' {
        seq!['\\', '"']
    } else {
        seq![c]
    }
}

/// A tag value with backslashes and double quotes escaped by a backslash.
pub open spec fn escape_spec(s: Seq<char>) -> Seq<char>
    decreases s.len(),
{
    if s.len() == 0 {
        seq![]
    } else {
        escape_spec(s.drop_last()) + escape_char(s.last())
    }
}

pub open spec fn dash_to_dot(c: char) -> char {
    if c == '-' {
        '.'
    } else {
        c
    }
}

/// "2026-09-10T15:04:05" to "2026.09.10": the part before the first 'T',
/// with every '-' written as '.'.
pub open spec fn iso_date_spec(iso: Seq<char>) -> Seq<char> {
    split_on(iso, 'T')[0].map_values(|c: char| dash_to_dot(c))
}

/// The PGN `TimeControl` value: "base" or "base+increment", in seconds.
pub open spec fn tc_pgn_spec(base: u64, inc: u64) -> Seq<char> {
    if inc == 0 {
        decimal(base as nat)
    } else {
        decimal(base as nat) + seq!['+'] + decimal(inc as nat)
    }
}

/// The movetext token of the `i`-th move: "N. san" for white, "san" for black.
pub open spec fn move_token(i: int, san: Seq<char>) -> Seq<char> {
    if i % 2 == 0 {
        decimal((i / 2 + 1) as nat) + seq!['.', ' '] + san
    } else {
        san
    }
}

/// The number a text of decimal digits stands for.
pub open spec fn decimal_value(s: Seq<char>) -> nat
    decreases s.len(),
{
    if s.len() == 0 {
        0
    } else {
        decimal_value(s.drop_last()) * 10 + ((s.last() as int - 48) as nat)
    }
}

/// A number's decimal text is made of digits and reads back as the number.
pub proof fn lemma_decimal_reads_back(n: nat)
    ensures
        decimal(n).len() > 0,
        forall|i: int| 0 <= i < decimal(n).len() ==> '0' <= #[trigger] decimal(n)[i] <= '9',
        decimal_value(decimal(n)) == n,
    decreases n,
{
    if n < 10 {
        let d = decimal(n);
        assert(d == seq![crate::text::digit_char(n as int)]);
        assert(d.drop_last() =~= Seq::<char>::empty());
        assert(crate::text::digit_char(n as int) as int == n + 48);
        assert(decimal_value(d) == decimal_value(d.drop_last()) * 10 + ((d.last() as int - 48) as nat));
    } else {
        lemma_decimal_reads_back(n / 10);
        let d = decimal(n);
        let pre = decimal(n / 10);
        assert(d == pre.push(crate::text::digit_char((n % 10) as int)));
        assert(d.drop_last() =~= pre);
        assert forall|i: int| 0 <= i < d.len() implies '0' <= #[trigger] d[i] <= '9' by {
            if i < pre.len() {
                assert(d[i] == pre[i]);
            }
        }
        assert(crate::text::digit_char((n % 10) as int) as int == n % 10 + 48);
        assert(decimal_value(d) == decimal_value(pre) * 10 + ((d.last() as int - 48) as nat));
        assert((n / 10) * 10 + n % 10 == n) by (nonlinear_arith);
    }
}

/// White's moves are numbered in the movetext: the token of every ply with
/// an even index `i` is a number, ". " and the SAN, where the number is
/// written in decimal digits and reads as `i / 2 + 1`; black's plies are
/// the SAN alone.
pub proof fn law_move_numbers(moves: Seq<MoveRecord>, i: int)
    requires
        0 <= i < moves.len(),
    ensures
        i % 2 == 0 ==> exists|p: Seq<char>|
            #![trigger decimal_value(p)]
            session_tokens(moves)[i] == p + seq!['.', ' '] + moves[i].san@ && p.len() > 0 && (forall|
                k: int,
            | 0 <= k < p.len() ==> '0' <= #[trigger] p[k] <= '9') && decimal_value(p) == i / 2 + 1,
        i % 2 == 1 ==> session_tokens(moves)[i] == moves[i].san@,
{
    if i % 2 == 0 {
        let n = (i / 2 + 1) as nat;
        lemma_decimal_reads_back(n);
        let p = decimal(n);
        assert(session_tokens(moves)[i] == p + seq!['.', ' '] + moves[i].san@);
        assert(decimal_value(p) == i / 2 + 1);
    }
}

/// Byte length of a text in UTF-8, as `str::len` reports it.
pub open spec fn byte_len(s: Seq<char>) -> nat {
    (vstd::utf8::encode_utf8(s).len() as usize) as nat
}

/// Movetext wrapping in progress: the finished lines, the current line and
/// its length in bytes. A line is flushed (trailing white space removed)
/// before a token that would take it past 78 bytes.
pub open spec fn wrap_state(toks: Seq<Seq<char>>) -> (Seq<char>, Seq<char>, nat)
    decreases toks.len(),
{
    if toks.len() == 0 {
        (seq![], seq![], 0)
    } else {
        let (out, line, ll) = wrap_state(toks.drop_last());
        let tok = toks.last();
        let (out2, line2, ll2) = if ll + byte_len(tok) + 1 > 78 {
            (out + trim_end_spec(line) + seq!['\n'], seq![], 0nat)
        } else {
            (out, line, ll)
        };
        let (line3, ll3) = if line2.len() > 0 {
            (line2.push(' '), ll2 + 1)
        } else {
            (line2, ll2)
        };
        (out2, line3 + tok, ll3 + byte_len(tok))
    }
}

/// The wrapped movetext of a token sequence.
pub open spec fn movetext_spec(toks: Seq<Seq<char>>) -> Seq<char> {
    let (out, line, ll) = wrap_state(toks);
    if line.len() > 0 {
        out + trim_end_spec(line) + seq!['\n']
    } else {
        out
    }
}

/// The movetext tokens of a list of move records.
pub open spec fn session_tokens(moves: Seq<MoveRecord>) -> Seq<Seq<char>> {
    Seq::new(moves.len(), |i: int| move_token(i, moves[i].san@))
}

/// The PGN text of a session started at `started` (ISO date-time).
pub open spec fn pgn_spec(s: Session, started: Seq<char>) -> Seq<char> {
    let result = s.result_spec();
    tag_line("Event"@, "p2pawn LAN game"@) + tag_line("Site"@, "LAN"@) + tag_line(
        "Date"@,
        iso_date_spec(started),
    ) + tag_line("Round"@, "-"@) + tag_line("White"@, escape_spec(s.white_name@)) + tag_line(
        "Black"@,
        escape_spec(s.black_name@),
    ) + tag_line("Result"@, result) + match s.end {
        Some(e) => tag_line("Termination"@, e.termination@),
        None => seq![],
    } + tag_line("TimeControl"@, tc_pgn_spec(s.tc.base_secs, s.tc.inc_secs)) + seq!['\n']
        + movetext_spec(session_tokens(s.moves@)) + result + seq!['\n']
}

fn push_tag(out: &mut Vec<char>, key: &str, value: &Vec<char>)
    ensures
        final(out)@ == old(out)@ + tag_line(key@, value@),
{
    out.push('[');
    push_str_chars(out, key);
    out.push(' ');
    out.push('"');
    push_all(out, value);
    out.push('"');
    out.push(']');
    out.push('\n');
    assert(out@ =~= old(out)@ + tag_line(key@, value@));
}

/// Escape backslashes and double quotes in a tag value.
pub fn escape_tag(s: &str) -> (r: String)
    ensures
        r@ == escape_spec(s@),
{
    let v = chars_of(s);
    let e = escape_chars(&v);
    string_of(&e)
}

fn escape_chars(v: &Vec<char>) -> (r: Vec<char>)
    ensures
        r@ == escape_spec(v@),
{
    let mut out: Vec<char> = Vec::new();
    let mut i: usize = 0;
    assert(v@.take(0) =~= Seq::<char>::empty());
    while i < v.len()
        invariant
            i <= v@.len(),
            out@ == escape_spec(v@.take(i as int)),
        decreases v@.len() - i,
    {
        let c = v[i];
        assert(v@.take(i + 1).drop_last() =~= v@.take(i as int));
        if c == '\\' {
            out.push('\\');
            out.push('\\');
        } else if c == '"' {
            out.push('\\');
            out.push('"');
        } else {
            out.push(c);
        }
        i = i + 1;
        assert(out@ =~= escape_spec(v@.take(i as int)));
    }
    assert(v@.take(v@.len() as int) =~= v@);
    out
}

/// "2026-09-10T15:04:05" to "2026.09.10".
pub fn iso_to_pgn_date(iso: &str) -> (r: String)
    ensures
        r@ == iso_date_spec(iso@),
{
    let v = chars_of(iso);
    let parts = split_chars(&v, 'T');
    proof {
        crate::text::lemma_split_on_nonempty(iso@, 'T');
    }
    let first = &parts[0];
    let mut out: Vec<char> = Vec::new();
    let mut i: usize = 0;
    while i < first.len()
        invariant
            i <= first@.len(),
            out@ == first@.take(i as int).map_values(|c: char| dash_to_dot(c)),
        decreases first@.len() - i,
    {
        let c = first[i];
        out.push(if c == '-' { '.' } else { c });
        i = i + 1;
        assert(out@ =~= first@.take(i as int).map_values(|c: char| dash_to_dot(c)));
    }
    assert(first@.take(first@.len() as int) =~= first@);
    string_of(&out)
}

/// The PGN `TimeControl` value.
pub fn tc_to_pgn(base_secs: u64, inc_secs: u64) -> (r: String)
    ensures
        r@ == tc_pgn_spec(base_secs, inc_secs),
{
    let mut out: Vec<char> = Vec::new();
    push_decimal(&mut out, base_secs);
    if inc_secs != 0 {
        out.push('+');
        push_decimal(&mut out, inc_secs);
    }
    assert(out@ =~= tc_pgn_spec(base_secs, inc_secs));
    string_of(&out)
}

fn move_token_chars(i: usize, san: &String) -> (r: Vec<char>)
    requires
        i < usize::MAX,
    ensures
        r@ == move_token(i as int, san@),
{
    let mut out: Vec<char> = Vec::new();
    if i % 2 == 0 {
        push_decimal(&mut out, (i / 2 + 1) as u64);
        out.push('.');
        out.push(' ');
    }
    push_str_chars(&mut out, san.as_str());
    assert(out@ =~= move_token(i as int, san@));
    out
}

fn movetext(moves: &Vec<MoveRecord>) -> (r: Vec<char>)
    ensures
        r@ == movetext_spec(session_tokens(moves@)),
{
    let ghost toks = session_tokens(moves@);
    let mut out: Vec<char> = Vec::new();
    let mut line: Vec<char> = Vec::new();
    let mut line_len: usize = 0;
    let mut i: usize = 0;
    assert(toks.take(0) =~= Seq::<Seq<char>>::empty());
    while i < moves.len()
        invariant
            i <= moves@.len(),
            toks == session_tokens(moves@),
            wrap_state(toks.take(i as int)) == (out@, line@, line_len as nat),
            line_len <= 78 || line@.len() > 0,
        decreases moves@.len() - i,
    {
        let tok = move_token_chars(i, &moves[i].san);
        let ts = string_of(&tok);
        let tlen = ts.as_str().len();
        assert(toks.take(i + 1).drop_last() =~= toks.take(i as int));
        assert(toks.take(i + 1).last() == tok@);
        assert(tlen == byte_len(tok@));
        let ghost prev = (out@, line@, line_len as nat);
        let ghost flushed = (line_len as nat + byte_len(tok@) + 1 > 78);
        if tlen > 77 || line_len > 77 - tlen {
            let t = trim_end(&line);
            push_all(&mut out, &t);
            out.push('\n');
            line = Vec::new();
            line_len = 0;
        }
        if line.len() > 0 {
            line.push(' ');
            line_len = line_len + 1;
        }
        push_all(&mut line, &tok);
        line_len = line_len + tlen;
        proof {
            let (o, l, ll) = prev;
            let (o2, l2, ll2) = if flushed {
                (o + trim_end_spec(l) + seq!['\n'], Seq::<char>::empty(), 0nat)
            } else {
                (o, l, ll)
            };
            assert(o2 =~= out@);
            let (l3, ll3) = if l2.len() > 0 {
                (l2.push(' '), ll2 + 1)
            } else {
                (l2, ll2)
            };
            assert(l3 + tok@ =~= line@);
            assert(wrap_state(toks.take(i + 1)) == (o2, l3 + tok@, ll3 + byte_len(tok@)));
        }
        i = i + 1;
    }
    assert(toks.take(moves@.len() as int) =~= toks);
    if line.len() > 0 {
        let t = trim_end(&line);
        push_all(&mut out, &t);
        out.push('\n');
    }
    out
}

/// Generate a complete PGN text for a finished (or ongoing) session.
pub fn session_to_pgn(session: &Session, started_iso: &str) -> (r: String)
    ensures
        r@ == pgn_spec(*session, started_iso@),
{
    let result = session.result_string();
    let mut pgn: Vec<char> = Vec::new();
    push_tag(&mut pgn, "Event", &chars_of("p2pawn LAN game"));
    push_tag(&mut pgn, "Site", &chars_of("LAN"));
    push_tag(&mut pgn, "Date", &chars_of(iso_to_pgn_date(started_iso).as_str()));
    push_tag(&mut pgn, "Round", &chars_of("-"));
    push_tag(&mut pgn, "White", &escape_chars(&chars_of(session.white_name.as_str())));
    push_tag(&mut pgn, "Black", &escape_chars(&chars_of(session.black_name.as_str())));
    push_tag(&mut pgn, "Result", &chars_of(result));
    let ghost head = pgn@;
    match &session.end {
        Some(end) => push_tag(&mut pgn, "Termination", &chars_of(end.termination.as_str())),
        None => {},
    }
    let ghost mid = pgn@;
    push_tag(
        &mut pgn,
        "TimeControl",
        &chars_of(tc_to_pgn(session.tc.base_secs, session.tc.inc_secs).as_str()),
    );
    pgn.push('\n');
    let mt = movetext(&session.moves);
    push_all(&mut pgn, &mt);
    push_str_chars(&mut pgn, result);
    pgn.push('\n');
    assert(pgn@ =~= pgn_spec(*session, started_iso@));
    string_of(&pgn)
}

/// A parsed PGN game.
pub struct ParsedPgn {
    pub white: String,
    pub black: String,
    pub result: String,
    pub event: String,
    pub date: String,
    pub termination: String,
    /// SAN tokens in order.
    pub sans: Vec<String>,
}

/// The header values and the movetext gathered from the lines read so far.
pub struct PgnScan {
    pub white: Seq<char>,
    pub black: Seq<char>,
    pub result: Seq<char>,
    pub event: Seq<char>,
    pub date: Seq<char>,
    pub termination: Seq<char>,
    pub movetext: Seq<char>,
}

/// The index of the first `c` in `s`.
pub open spec fn first_index(s: Seq<char>, c: char) -> Option<int> {
    if exists|i: int| 0 <= i < s.len() && s[i] == c {
        Some(
            choose|i: int|
                0 <= i < s.len() && s[i] == c && forall|j: int| 0 <= j < i ==> s[j] != c,
        )
    } else {
        None
    }
}

/// `s` without leading and trailing double quotes (`trim_matches('"')`).
pub open spec fn trim_quotes_spec(s: Seq<char>) -> Seq<char>
    decreases s.len(),
{
    if s.len() > 0 && s[0] == '"' {
        trim_quotes_spec(s.drop_first())
    } else if s.len() > 0 && s.last() == '"' {
        trim_quotes_spec(s.drop_last())
    } else {
        s
    }
}

/// Read one trimmed line: a `[Key "Value"]` header sets a known tag, a
/// line starting with '[' but not ending with ']' is skipped, any other
/// non-empty line is appended to the movetext followed by a line break, so
/// that a `;` comment ends with its line.
pub open spec fn scan_line(acc: PgnScan, t: Seq<char>) -> PgnScan {
    if t.len() > 0 && t[0] == '[' {
        let rest = t.drop_first();
        if rest.len() > 0 && rest.last() == ']' {
            let end = rest.drop_last();
            match first_index(end, ' ') {
                Some(i) => {
                    let k = trim_spec(end.take(i));
                    let v = trim_quotes_spec(trim_spec(end.skip(i + 1)));
                    if k == "White"@ {
                        PgnScan { white: v, ..acc }
                    } else if k == "Black"@ {
                        PgnScan { black: v, ..acc }
                    } else if k == "Result"@ {
                        PgnScan { result: v, ..acc }
                    } else if k == "Event"@ {
                        PgnScan { event: v, ..acc }
                    } else if k == "Date"@ {
                        PgnScan { date: v, ..acc }
                    } else if k == "Termination"@ {
                        PgnScan { termination: v, ..acc }
                    } else {
                        acc
                    }
                },
                None => acc,
            }
        } else {
            acc
        }
    } else if t.len() > 0 {
        PgnScan { movetext: acc.movetext + t + seq!['\n'], ..acc }
    } else {
        acc
    }
}

/// The scan of a sequence of lines, starting from the defaults
/// (White "White", Black "Black", the rest empty).
pub open spec fn scan_lines(ls: Seq<Seq<char>>) -> PgnScan
    decreases ls.len(),
{
    if ls.len() == 0 {
        PgnScan {
            white: "White"@,
            black: "Black"@,
            result: seq![],
            event: seq![],
            date: seq![],
            termination: seq![],
            movetext: seq![],
        }
    } else {
        scan_line(scan_lines(ls.drop_last()), trim_spec(ls.last()))
    }
}

/// Comment stripping in progress: the kept characters, whether inside a
/// `{...}` comment, whether inside a `;` rest-of-line comment.
pub open spec fn clean_acc(s: Seq<char>) -> (Seq<char>, bool, bool)
    decreases s.len(),
{
    if s.len() == 0 {
        (seq![], false, false)
    } else {
        let (out, brace, semi) = clean_acc(s.drop_last());
        let c = s.last();
        if semi {
            if c == '\n' {
                (out.push(c), brace, false)
            } else {
                (out, brace, true)
            }
        } else if c == '{' {
            (out, true, false)
        } else if c == '}' {
            (out, false, false)
        } else if c == ';' {
            (out, brace, true)
        } else if brace {
            (out, brace, false)
        } else {
            (out.push(c), brace, false)
        }
    }
}

/// How many characters from position `i` on are decimal digits.
pub open spec fn digits_from(t: Seq<char>, i: int) -> nat
    decreases t.len() - i,
{
    if 0 <= i < t.len() && '0' <= t[i] <= '9' {
        1 + digits_from(t, i + 1)
    } else {
        0
    }
}

/// How many characters from position `i` on are dots.
pub open spec fn dots_from(t: Seq<char>, i: int) -> nat
    decreases t.len() - i,
{
    if 0 <= i < t.len() && t[i] == '.' {
        1 + dots_from(t, i + 1)
    } else {
        0
    }
}

/// The length of the move number that a token starts with ("12." or
/// "12..."): digits followed by at least one dot; 0 when there is none.
pub open spec fn move_number_len(t: Seq<char>) -> nat {
    let d = digits_from(t, 0);
    let e = dots_from(t, d as int);
    if d > 0 && e > 0 {
        d + e
    } else {
        0
    }
}

/// A token without the move number it starts with ("1.e4" gives "e4",
/// "1..." gives "").
pub open spec fn strip_move_number(t: Seq<char>) -> Seq<char> {
    t.skip(move_number_len(t) as int)
}

/// A token (with its move number taken off) that is kept: not empty, not
/// ending in a dot, not a result marker, not a NAG ("$1").
pub open spec fn keep_token(t: Seq<char>) -> bool {
    &&& t.len() > 0
    &&& t.last() != '.'
    &&& t != "1-0"@
    &&& t != "0-1"@
    &&& t != "1/2-1/2"@
    &&& t != "*"@
    &&& t[0] != '$'
}

pub open spec fn keep_tokens(ts: Seq<Seq<char>>) -> Seq<Seq<char>>
    decreases ts.len(),
{
    if ts.len() == 0 {
        seq![]
    } else {
        let t = strip_move_number(ts.last());
        keep_tokens(ts.drop_last()) + if keep_token(t) {
            seq![t]
        } else {
            seq![]
        }
    }
}

/// The SAN tokens of a movetext: comments stripped (a `;` comment runs to
/// the end of its line), split at white space, move numbers taken off the
/// front of tokens, empty tokens, result markers and NAGs dropped.
pub open spec fn tokens_spec(text: Seq<char>) -> Seq<Seq<char>> {
    keep_tokens(words_spec(clean_acc(text).0))
}

/// A character that can stand in a token read from a movetext: no white
/// space and no comment character.
pub open spec fn token_char(c: char) -> bool {
    !is_ws(c) && c != '{' && c != '}' && c != ';'
}

proof fn lemma_clean_no_comment(s: Seq<char>)
    ensures
        forall|k: int| 0 <= k < clean_acc(s).0.len() ==> {
            let c = #[trigger] clean_acc(s).0[k];
            c != '{' && c != '}' && c != ';'
        },
    decreases s.len(),
{
    if s.len() > 0 {
        lemma_clean_no_comment(s.drop_last());
        let prev = clean_acc(s.drop_last()).0;
        let out = clean_acc(s).0;
        assert forall|k: int| 0 <= k < out.len() implies {
            let c = #[trigger] out[k];
            c != '{' && c != '}' && c != ';'
        } by {
            if k < prev.len() {
                assert(out[k] == prev[k]);
            }
        }
    }
}

proof fn lemma_run_lengths(t: Seq<char>, i: int)
    requires
        0 <= i,
    ensures
        i <= t.len() ==> i + digits_from(t, i) <= t.len(),
        i <= t.len() ==> i + dots_from(t, i) <= t.len(),
    decreases t.len() - i,
{
    if i < t.len() {
        lemma_run_lengths(t, i + 1);
    }
}

proof fn lemma_words_solid(s: Seq<char>)
    requires
        forall|k: int| 0 <= k < s.len() ==> (#[trigger] s[k]) != '{' && s[k] != '}' && s[k] != ';',
    ensures
        forall|i: int| 0 <= i < words_acc(s).0.len() ==> (#[trigger] words_acc(s).0[i]).len() > 0,
        forall|i: int, j: int|
            0 <= i < words_acc(s).0.len() && 0 <= j < words_acc(s).0[i].len() ==> token_char(
                #[trigger] words_acc(s).0[i][j],
            ),
        forall|j: int| 0 <= j < words_acc(s).1.len() ==> token_char(#[trigger] words_acc(s).1[j]),
    decreases s.len(),
{
    if s.len() > 0 {
        let s0 = s.drop_last();
        assert forall|k: int| 0 <= k < s0.len() implies (#[trigger] s0[k]) != '{' && s0[k] != '}'
            && s0[k] != ';' by {
            assert(s0[k] == s[k]);
        }
        lemma_words_solid(s0);
        assert(s[s.len() - 1] == s.last());
        let (d0, c0) = words_acc(s0);
        let (d1, c1) = words_acc(s);
        let x = s.last();
        if is_ws(x) {
            assert forall|i: int| 0 <= i < d1.len() implies (#[trigger] d1[i]).len() > 0 by {
                if i < d0.len() {
                    assert(d1[i] == d0[i]);
                }
            }
            assert forall|i: int, j: int| 0 <= i < d1.len() && 0 <= j < d1[i].len() implies token_char(
                #[trigger] d1[i][j],
            ) by {
                if i < d0.len() {
                    assert(d1[i] == d0[i]);
                    assert(token_char(words_acc(s0).0[i][j]));
                } else {
                    assert(d1[i] == c0);
                    assert(token_char(words_acc(s0).1[j]));
                }
            }
        } else {
            assert(token_char(x));
            assert forall|j: int| 0 <= j < c1.len() implies token_char(#[trigger] c1[j]) by {
                if j < c0.len() {
                    assert(c1[j] == c0[j]);
                    assert(token_char(words_acc(s0).1[j]));
                }
            }
            assert forall|i: int, j: int| 0 <= i < d1.len() && 0 <= j < d1[i].len() implies token_char(
                #[trigger] d1[i][j],
            ) by {
                assert(token_char(words_acc(s0).0[i][j]));
            }
        }
    }
}

proof fn lemma_keep_tokens_solid(ts: Seq<Seq<char>>)
    requires
        forall|i: int, j: int|
            0 <= i < ts.len() && 0 <= j < ts[i].len() ==> token_char(#[trigger] ts[i][j]),
    ensures
        forall|k: int| 0 <= k < keep_tokens(ts).len() ==> keep_token(#[trigger] keep_tokens(ts)[k]),
        forall|k: int, j: int|
            0 <= k < keep_tokens(ts).len() && 0 <= j < keep_tokens(ts)[k].len() ==> token_char(
                #[trigger] keep_tokens(ts)[k][j],
            ),
    decreases ts.len(),
{
    if ts.len() > 0 {
        let pre = ts.drop_last();
        assert forall|i: int, j: int| 0 <= i < pre.len() && 0 <= j < pre[i].len() implies token_char(
            #[trigger] pre[i][j],
        ) by {
            assert(pre[i] == ts[i]);
        }
        lemma_keep_tokens_solid(pre);
        let w = ts.last();
        let t = strip_move_number(w);
        let n = move_number_len(w) as int;
        lemma_run_lengths(w, 0);
        lemma_run_lengths(w, digits_from(w, 0) as int);
        assert(ts[ts.len() - 1] == w);
        assert forall|j: int| 0 <= j < t.len() implies token_char(#[trigger] t[j]) by {
            assert(n + j < w.len());
            assert(t[j] == w[n + j]);
            assert(token_char(ts[ts.len() - 1][n + j]));
        }
        let r = keep_tokens(ts);
        let p = keep_tokens(pre);
        assert forall|k: int| 0 <= k < r.len() implies keep_token(#[trigger] r[k]) by {
            if k < p.len() {
                assert(r[k] == p[k]);
            }
        }
        assert forall|k: int, j: int| 0 <= k < r.len() && 0 <= j < r[k].len() implies token_char(
            #[trigger] r[k][j],
        ) by {
            if k < p.len() {
                assert(r[k] == p[k]);
                assert(token_char(p[k][j]));
            } else {
                assert(r[k] == t);
            }
        }
    }
}

/// Every token read from a movetext is a bare move: not empty, without
/// white space or comment characters, not a move number (it does not end
/// in a dot), not a result marker and not a NAG.
pub proof fn law_movetext_tokens(text: Seq<char>)
    ensures
        forall|k: int| 0 <= k < tokens_spec(text).len() ==> keep_token(#[trigger] tokens_spec(text)[k]),
        forall|k: int, j: int|
            0 <= k < tokens_spec(text).len() && 0 <= j < tokens_spec(text)[k].len() ==> token_char(
                #[trigger] tokens_spec(text)[k][j],
            ),
{
    let cleaned = clean_acc(text).0;
    lemma_clean_no_comment(text);
    assert forall|k: int| 0 <= k < cleaned.len() implies (#[trigger] cleaned[k]) != '{' && cleaned[k]
        != '}' && cleaned[k] != ';' by {
        assert(clean_acc(text).0[k] == cleaned[k]);
    }
    lemma_words_solid(cleaned);
    let (done, cur) = words_acc(cleaned);
    let ws = words_spec(cleaned);
    assert forall|i: int, j: int| 0 <= i < ws.len() && 0 <= j < ws[i].len() implies token_char(
        #[trigger] ws[i][j],
    ) by {
        if i < done.len() {
            assert(ws[i] == done[i]);
            assert(token_char(words_acc(cleaned).0[i][j]));
        } else {
            assert(ws[i] == cur);
            assert(token_char(words_acc(cleaned).1[j]));
        }
    }
    lemma_keep_tokens_solid(ws);
}

fn vec_eq_str(v: &Vec<char>, s: &str) -> (r: bool)
    ensures
        r == (v@ == s@),
{
    let w = chars_of(s);
    if v.len() != w.len() {
        return false;
    }
    let mut i: usize = 0;
    while i < v.len()
        invariant
            i <= v@.len(),
            v@.len() == w@.len(),
            w@ == s@,
            forall|k: int| 0 <= k < i ==> v@[k] == w@[k],
        decreases v@.len() - i,
    {
        if v[i] != w[i] {
            return false;
        }
        i = i + 1;
    }
    assert(v@ =~= w@);
    true
}

fn trim_quotes(s: &Vec<char>) -> (r: Vec<char>)
    ensures
        r@ == trim_quotes_spec(s@),
{
    let mut lo: usize = 0;
    let mut hi: usize = s.len();
    assert(s@.subrange(0, s@.len() as int) =~= s@);
    while lo < hi && (s[lo] == '"' || s[hi - 1] == '"')
        invariant
            lo <= hi <= s@.len(),
            trim_quotes_spec(s@) == trim_quotes_spec(s@.subrange(lo as int, hi as int)),
        decreases hi - lo,
    {
        if s[lo] == '"' {
            assert(s@.subrange(lo as int, hi as int).drop_first() =~= s@.subrange(lo + 1, hi as int));
            lo = lo + 1;
        } else {
            assert(s@.subrange(lo as int, hi as int).drop_last() =~= s@.subrange(lo as int, hi - 1));
            hi = hi - 1;
        }
    }
    slice(s, lo, hi)
}

fn scan_line_exec(acc: &mut ParsedPgn, movetext: &mut Vec<char>, t: &Vec<char>)
    ensures
        ({
            let a = PgnScan {
                white: old(acc).white@,
                black: old(acc).black@,
                result: old(acc).result@,
                event: old(acc).event@,
                date: old(acc).date@,
                termination: old(acc).termination@,
                movetext: old(movetext)@,
            };
            scan_line(a, t@) == PgnScan {
                white: final(acc).white@,
                black: final(acc).black@,
                result: final(acc).result@,
                event: final(acc).event@,
                date: final(acc).date@,
                termination: final(acc).termination@,
                movetext: final(movetext)@,
            }
        }),
        final(acc).sans == old(acc).sans,
{
    if t.len() > 0 && t[0] == '[' {
        let n = t.len();
        if n >= 2 && t[n - 1] == ']' {
            assert(t@.drop_first().last() == t@[n - 1]);
            let end = slice(t, 1, n - 1);
            assert(end@ =~= t@.drop_first().drop_last());
            let mut i: usize = 0;
            while i < end.len() && end[i] != ' '
                invariant
                    i <= end@.len(),
                    forall|j: int| 0 <= j < i ==> end@[j] != ' ',
                decreases end@.len() - i,
            {
                i = i + 1;
            }
            if i < end.len() {
                proof {
                    let fi = first_index(end@, ' ');
                    assert(exists|j: int| 0 <= j < end@.len() && end@[j] == ' ') by {
                        assert(end@[i as int] == ' ');
                    }
                    let c = choose|j: int|
                        0 <= j < end@.len() && end@[j] == ' ' && forall|k: int| 0 <= k < j ==> end@[k] != ' ';
                    assert(forall|k: int| 0 <= k < i ==> end@[k] != ' ');
                    assert(0 <= i < end@.len() && end@[i as int] == ' ' && forall|k: int| 0 <= k < i ==> end@[k] != ' ');
                    if c < i {
                        assert(end@[c] != ' ');
                    } else if c > i {
                        assert(end@[i as int] != ' ');
                    }
                    assert(fi == Some(i as int));
                }
                let k = trim(&slice(&end, 0, i));
                let v = trim_quotes(&trim(&slice(&end, i + 1, end.len())));
                assert(end@.take(i as int) =~= end@.subrange(0, i as int));
                assert(end@.skip(i + 1) =~= end@.subrange(i + 1, end@.len() as int));
                let vs = string_of(&v);
                if vec_eq_str(&k, "White") {
                    acc.white = vs;
                } else if vec_eq_str(&k, "Black") {
                    acc.black = vs;
                } else if vec_eq_str(&k, "Result") {
                    acc.result = vs;
                } else if vec_eq_str(&k, "Event") {
                    acc.event = vs;
                } else if vec_eq_str(&k, "Date") {
                    acc.date = vs;
                } else if vec_eq_str(&k, "Termination") {
                    acc.termination = vs;
                }
            } else {
                proof {
                    assert(!exists|j: int| 0 <= j < end@.len() && end@[j] == ' ');
                }
            }
        }
    } else if t.len() > 0 {
        push_all(movetext, t);
        movetext.push('\n');
        assert(movetext@ =~= old(movetext)@ + t@ + seq!['\n']);
    }
}

/// Parse a PGN text: the known header tags and the SAN tokens of the movetext.
pub fn parse_pgn(text: &str) -> (r: ParsedPgn)
    ensures
        ({
            let sc = scan_lines(lines_spec(text@));
            &&& r.white@ == sc.white
            &&& r.black@ == sc.black
            &&& r.result@ == sc.result
            &&& r.event@ == sc.event
            &&& r.date@ == sc.date
            &&& r.termination@ == sc.termination
            &&& r.sans@.len() == tokens_spec(sc.movetext).len()
            &&& forall|k: int|
                0 <= k < r.sans@.len() ==> (#[trigger] r.sans@[k])@ == tokens_spec(sc.movetext)[k]
        }),
{
    let mut out = ParsedPgn {
        white: string_of(&chars_of("White")),
        black: string_of(&chars_of("Black")),
        result: String::new(),
        event: String::new(),
        date: String::new(),
        termination: String::new(),
        sans: Vec::new(),
    };
    let mut movetext: Vec<char> = Vec::new();
    let chars = chars_of(text);
    let ls = lines(&chars);
    let ghost lsv = lines_spec(text@);
    let mut i: usize = 0;
    assert(lsv.take(0) =~= Seq::<Seq<char>>::empty());
    while i < ls.len()
        invariant
            i <= ls@.len(),
            ls@.len() == lsv.len(),
            forall|k: int| 0 <= k < ls@.len() ==> (#[trigger] ls@[k])@ == lsv[k],
            scan_lines(lsv.take(i as int)) == (PgnScan {
                white: out.white@,
                black: out.black@,
                result: out.result@,
                event: out.event@,
                date: out.date@,
                termination: out.termination@,
                movetext: movetext@,
            }),
        decreases ls@.len() - i,
    {
        let t = trim(&ls[i]);
        assert(lsv.take(i + 1).drop_last() =~= lsv.take(i as int));
        assert(lsv.take(i + 1).last() == lsv[i as int]);
        scan_line_exec(&mut out, &mut movetext, &t);
        i = i + 1;
    }
    assert(lsv.take(ls@.len() as int) =~= lsv);
    out.sans = tokenize_movetext(&movetext);
    out
}

/// `t` without the move number it starts with.
fn strip_number(t: &Vec<char>) -> (r: Vec<char>)
    ensures
        r@ == strip_move_number(t@),
{
    let n = t.len();
    let mut d: usize = 0;
    while d < n && '0' <= t[d] && t[d] <= '9'
        invariant
            d <= n == t@.len(),
            digits_from(t@, 0) == d + digits_from(t@, d as int),
        decreases n - d,
    {
        d = d + 1;
    }
    let mut e: usize = d;
    while e < n && t[e] == '.'
        invariant
            d <= e <= n == t@.len(),
            digits_from(t@, d as int) == 0,
            dots_from(t@, d as int) == (e - d) + dots_from(t@, e as int),
        decreases n - e,
    {
        e = e + 1;
    }
    let p = if d > 0 && e > d {
        e
    } else {
        0
    };
    assert(t@.skip(p as int) =~= t@.subrange(p as int, n as int));
    slice(t, p, n)
}

/// Strip comments, NAGs, move numbers and the result marker; return the SAN tokens.
pub fn tokenize_movetext(text: &Vec<char>) -> (r: Vec<String>)
    ensures
        r@.len() == tokens_spec(text@).len(),
        forall|k: int| 0 <= k < r@.len() ==> (#[trigger] r@[k])@ == tokens_spec(text@)[k],
{
    let mut cleaned: Vec<char> = Vec::new();
    let mut brace = false;
    let mut semi = false;
    let mut i: usize = 0;
    assert(text@.take(0) =~= Seq::<char>::empty());
    while i < text.len()
        invariant
            i <= text@.len(),
            clean_acc(text@.take(i as int)) == (cleaned@, brace, semi),
        decreases text@.len() - i,
    {
        let c = text[i];
        assert(text@.take(i + 1).drop_last() =~= text@.take(i as int));
        assert(text@.take(i + 1).last() == c);
        if semi {
            if c == '\n' {
                semi = false;
                cleaned.push(c);
            }
        } else if c == '{' {
            brace = true;
        } else if c == '}' {
            brace = false;
        } else if c == ';' {
            semi = true;
        } else if !brace {
            cleaned.push(c);
        }
        i = i + 1;
    }
    assert(text@.take(text@.len() as int) =~= text@);
    let ws = words(&cleaned);
    let ghost wsv = words_spec(cleaned@);
    let mut out: Vec<String> = Vec::new();
    let mut j: usize = 0;
    assert(wsv.take(0) =~= Seq::<Seq<char>>::empty());
    while j < ws.len()
        invariant
            j <= ws@.len(),
            ws@.len() == wsv.len(),
            forall|k: int| 0 <= k < ws@.len() ==> (#[trigger] ws@[k])@ == wsv[k],
            out@.len() == keep_tokens(wsv.take(j as int)).len(),
            forall|k: int|
                0 <= k < out@.len() ==> (#[trigger] out@[k])@ == keep_tokens(wsv.take(j as int))[k],
        decreases ws@.len() - j,
    {
        let t = &ws[j];
        assert(wsv.take(j + 1).drop_last() =~= wsv.take(j as int));
        assert(wsv.take(j + 1).last() == t@);
        let st = strip_number(t);
        let n = st.len();
        let keep = n > 0 && st[n - 1] != '.' && !vec_eq_str(&st, "1-0") && !vec_eq_str(&st, "0-1")
            && !vec_eq_str(&st, "1/2-1/2") && !vec_eq_str(&st, "*") && st[0] != '$';
        let ghost before = out@;
        if keep {
            out.push(string_of(&st));
        }
        proof {
            let prev = keep_tokens(wsv.take(j as int));
            let next = keep_tokens(wsv.take(j + 1));
            assert(next == prev + if keep_token(st@) {
                seq![st@]
            } else {
                seq![]
            });
            assert forall|k: int| 0 <= k < out@.len() implies (#[trigger] out@[k])@ == next[k] by {
                if k < before.len() {
                    assert(out@[k] == before[k]);
                }
            }
        }
        j = j + 1;
    }
    assert(wsv.take(ws@.len() as int) =~= wsv);
    out
}

/// Replaying the first `n` SAN moves from the start: the position reached
/// and how many moves were applied (replay stops at the first token that
/// is not a legal move).
pub open spec fn replay_line(sans: Seq<Seq<char>>, n: nat) -> (Seq<char>, nat)
    decreases n,
{
    if n == 0 {
        (start_fen(), 0)
    } else {
        let (fen, k) = replay_line(sans, (n - 1) as nat);
        if k == n - 1 && n - 1 < sans.len() {
            match spec_from_san(fen, sans[n - 1]) {
                Some(m) => (spec_after(fen, m), n),
                None => (fen, k),
            }
        } else {
            (fen, k)
        }
    }
}

/// If the first `n` moves replay, so do the first `m <= n`.
pub proof fn lemma_replay_prefix(sans: Seq<Seq<char>>, n: nat, m: nat)
    requires
        m <= n,
        replay_line(sans, n).1 == n,
    ensures
        replay_line(sans, m).1 == m,
    decreases n - m,
{
    lemma_replay_count_le(sans, n);
    if m < n {
        let k = replay_line(sans, (n - 1) as nat).1;
        lemma_replay_count_le(sans, (n - 1) as nat);
        lemma_replay_prefix(sans, (n - 1) as nat, m);
    }
}

proof fn lemma_replay_count_le(sans: Seq<Seq<char>>, n: nat)
    ensures
        replay_line(sans, n).1 <= n,
    decreases n,
{
    if n > 0 {
        lemma_replay_count_le(sans, (n - 1) as nat);
    }
}

/// Replay state over a list of SAN moves.
pub struct Replay {
    /// The position shown.
    pub board: Position,
    /// The SAN moves being replayed.
    pub sans: Vec<String>,
    /// Number of moves applied (0 = start position).
    pub idx: usize,
}

impl Replay {
    /// The SAN moves, as text.
    pub open spec fn sans_view(&self) -> Seq<Seq<char>> {
        self.sans@.map_values(|s: String| s@)
    }

    /// The FEN of the position shown.
    pub open spec fn pos(&self) -> Seq<char> {
        self.board@
    }

    /// The position shown is the one reached by the first `idx` moves.
    pub open spec fn wf(&self) -> bool {
        &&& self.idx <= self.sans_view().len()
        &&& replay_line(self.sans_view(), self.idx as nat) == (self.pos(), self.idx as nat)
    }

    pub fn new(sans: Vec<String>) -> (r: Replay)
        ensures
            r.wf(),
            r.idx == 0,
            r.pos() == start_fen(),
            r.sans_view() == sans@.map_values(|s: String| s@),
    {
        Replay { board: Position::start(), sans, idx: 0 }
    }

    pub fn len(&self) -> (r: usize)
        ensures
            r == self.sans_view().len(),
    {
        self.sans.len()
    }

    /// The position shown.
    pub fn board(&self) -> (r: &Position)
        ensures
            r@ == self.pos(),
    {
        &self.board
    }

    /// SAN of the i-th move (already played or not).
    pub fn san_at(&self, i: usize) -> (r: Option<&str>)
        ensures
            i < self.sans_view().len() ==> (r matches Some(t) && t@ == self.sans_view()[i as int]),
            i >= self.sans_view().len() ==> r is None,
    {
        if i < self.sans.len() {
            Some(self.sans[i].as_str())
        } else {
            None
        }
    }

    pub fn at_end(&self) -> (r: bool)
        ensures
            r == (self.idx >= self.sans_view().len()),
    {
        self.idx >= self.sans.len()
    }

    /// The effect of `next` from `a` to `b`, returning `r`.
    pub open spec fn next_spec(a: Replay, b: Replay, r: bool) -> bool {
        &&& b.sans_view() == a.sans_view()
        &&& if a.idx < a.sans_view().len() && spec_from_san(
            a.pos(),
            a.sans_view()[a.idx as int],
        ) is Some {
            &&& r
            &&& b.idx == a.idx + 1
            &&& b.pos() == spec_after(
                a.pos(),
                spec_from_san(a.pos(), a.sans_view()[a.idx as int])->0,
            )
        } else {
            !r && b.idx == a.idx && b.pos() == a.pos()
        }
    }

    /// Apply the next move; false at the end or on a token that is not a legal move.
    pub fn next(&mut self) -> (r: bool)
        requires
            old(self).wf(),
        ensures
            final(self).wf(),
            Replay::next_spec(*old(self), *final(self), r),
    {
        if self.at_end() {
            return false;
        }
        let ghost sv = self.sans_view();
        let count = self.sans.len();
        assert(sv.len() == self.sans@.len());
        assert(self.idx < count);
        assert(sv[self.idx as int] == self.sans@[self.idx as int]@);
        match self.board.move_from_san(self.sans[self.idx].as_str()) {
            Some(m) => {
                self.board = self.board.after(m);
                self.idx = self.idx + 1;
                true
            },
            None => false,
        }
    }

    /// Restart and re-apply `n` moves (fewer if a token does not replay).
    pub fn seek(&mut self, n: usize)
        requires
            old(self).wf(),
        ensures
            final(self).wf(),
            final(self).sans_view() == old(self).sans_view(),
            ({
                let m = if n as nat <= old(self).sans_view().len() {
                    n as nat
                } else {
                    old(self).sans_view().len()
                };
                &&& final(self).idx == replay_line(old(self).sans_view(), m).1
                &&& final(self).pos() == replay_line(old(self).sans_view(), m).0
            }),
    {
        self.board = Position::start();
        self.idx = 0;
        let ghost sv = self.sans_view();
        let mut k: usize = 0;
        while k < n
            invariant
                self.wf(),
                self.sans_view() == sv,
                sv == old(self).sans_view(),
                k <= n,
                self.idx == k,
            decreases n - k,
        {
            let ghost before = *self;
            if !self.next() {
                proof {
                    let m = if n as nat <= sv.len() {
                        n as nat
                    } else {
                        sv.len()
                    };
                    lemma_replay_stuck(sv, k as nat, m);
                }
                return;
            }
            k = k + 1;
        }
    }

    /// Step one move back (restart and replay one move fewer); false at the start.
    pub fn prev(&mut self) -> (r: bool)
        requires
            old(self).wf(),
        ensures
            final(self).wf(),
            Replay::prev_spec(*old(self), *final(self), r),
    {
        if self.idx == 0 {
            return false;
        }
        let target = self.idx - 1;
        proof {
            lemma_replay_prefix(self.sans_view(), self.idx as nat, target as nat);
        }
        self.seek(target);
        true
    }

    /// The effect of `prev` from `a` to `b`, returning `r`.
    pub open spec fn prev_spec(a: Replay, b: Replay, r: bool) -> bool {
        &&& b.sans_view() == a.sans_view()
        &&& if a.idx == 0 {
            !r && b.idx == 0 && b.pos() == a.pos()
        } else {
            &&& r
            &&& b.idx == a.idx - 1
            &&& b.pos() == replay_line(a.sans_view(), (a.idx - 1) as nat).0
        }
    }

    /// Back to the start position.
    pub fn first(&mut self)
        requires
            old(self).wf(),
        ensures
            final(self).wf(),
            final(self).sans_view() == old(self).sans_view(),
            final(self).idx == 0,
            final(self).pos() == start_fen(),
    {
        self.seek(0);
    }

    /// Forward as far as the moves replay.
    pub fn last(&mut self)
        requires
            old(self).wf(),
        ensures
            final(self).wf(),
            final(self).sans_view() == old(self).sans_view(),
            final(self).idx == replay_line(old(self).sans_view(), old(self).sans_view().len()).1,
            final(self).pos() == replay_line(old(self).sans_view(), old(self).sans_view().len()).0,
    {
        let n = self.sans.len();
        self.seek(n);
    }
}

/// Once a replay stops at move `k` (no further token replays), every longer
/// prefix stops there too.
proof fn lemma_replay_stuck(sv: Seq<Seq<char>>, k: nat, j: nat)
    requires
        replay_line(sv, k).1 == k,
        k < sv.len() ==> spec_from_san(replay_line(sv, k).0, sv[k as int]) is None,
        k <= j,
    ensures
        replay_line(sv, j) == replay_line(sv, k),
    decreases j - k,
{
    if j > k {
        lemma_replay_stuck(sv, k, (j - 1) as nat);
    }
}

/// Stepping back undoes stepping forward: after a successful `next` from
/// `a` to `b`, `prev` from `b` to `c` shows `a`'s position and index again.
pub proof fn law_prev_undoes_next(a: Replay, b: Replay, c: Replay, r1: bool, r2: bool)
    requires
        a.wf(),
        Replay::next_spec(a, b, r1),
        r1,
        Replay::prev_spec(b, c, r2),
    ensures
        r2,
        c.idx == a.idx,
        c.pos() == a.pos(),
{
}

} // verus!
