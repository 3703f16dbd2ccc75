//! Local game history: finished games are stored as .pgn files under the
//! platform config directory, one file per game.
//!
//! File I/O is done by the application; this module holds the location,
//! the file naming and ordering rules, and turning a stored text into a replay.
use vstd::prelude::*;
use crate::game::pgn::{ParsedPgn, Replay, parse_pgn, tokens_spec, scan_lines};
use crate::text::{chars_of, lines_spec, split_chars, split_on, string_of, push_str_chars};
use crate::order::{lex_less, sort_positions, sorted_stably, is_permutation};
use crate::game::session::Session;
use crate::util::system_time_nanos;
use crate::game::pgn::{session_to_pgn, pgn_spec};

verus! {

#[verifier::external_type_specification]
#[verifier::external_body]
pub struct ExPathBuf(std::path::PathBuf);

/// The platform configuration directory (`dirs::config_dir`); depends on the
/// environment and the platform.
#[verifier::external_body]
fn config_dir() -> (r: Option<std::path::PathBuf>) {
    dirs::config_dir()
}

/// `base` with `part` appended as a further component (`Path::join`).
#[verifier::external_body]
pub(crate) fn path_join(base: &std::path::PathBuf, part: &str) -> (r: std::path::PathBuf) {
    base.join(part)
}

/// The directory where finished games are stored.
pub struct History {
    dir: std::path::PathBuf,
}

/// One entry of the history list.
pub struct HistoryEntry {
    pub file: std::path::PathBuf,
    pub parsed: ParsedPgn,
    /// Short file name, e.g. "20260910-a1b2c3d4".
    pub stem: String,
}

pub open spec fn hex_digit(d: int) -> char {
    if d < 10 {
        ((d + 48) as u8) as char
    } else {
        ((d + 87) as u8) as char
    }
}

/// Lower-case hexadecimal representation, without leading zeros.
pub open spec fn hex(n: nat) -> Seq<char>
    decreases n,
{
    if n < 16 {
        seq![hex_digit(n as int)]
    } else {
        hex(n / 16).push(hex_digit((n % 16) as int))
    }
}

/// The file stem of a game saved at `stamp_ms` (milliseconds since 1970)
/// that started at `started_iso`: the start date without dashes, a dash,
/// and the low 32 bits of the stamp in hexadecimal.
pub open spec fn stem_spec(started_iso: Seq<char>, stamp_ms: u128) -> Seq<char> {
    split_on(started_iso, 'T')[0].filter(|c: char| c != '-') + seq!['-'] + hex(
        (stamp_ms % 0x1_0000_0000) as nat,
    )
}

pub(crate) fn push_hex(out: &mut Vec<char>, n: u64)
    ensures
        final(out)@ == old(out)@ + hex(n as nat),
    decreases n,
{
    if n < 16 {
        let d = n as u8;
        out.push(if d < 10 { (d + 48) as char } else { (d + 87) as char });
    } else {
        push_hex(out, n / 16);
        let d = (n % 16) as u8;
        out.push(if d < 10 { (d + 48) as char } else { (d + 87) as char });
    }
}

/// The file stem for a game (see `stem_spec`).
pub fn history_stem(started_iso: &str, stamp_ms: u128) -> (r: String)
    ensures
        r@ == stem_spec(started_iso@, stamp_ms),
{
    let v = chars_of(started_iso);
    let parts = split_chars(&v, 'T');
    proof {
        crate::text::lemma_split_on_nonempty(started_iso@, 'T');
    }
    let first = &parts[0];
    let mut out: Vec<char> = Vec::new();
    let mut i: usize = 0;
    while i < first.len()
        invariant
            i <= first@.len(),
            out@ == first@.take(i as int).filter(|c: char| c != '-'),
        decreases first@.len() - i,
    {
        let c = first[i];
        assert(first@.take(i + 1).drop_last() =~= first@.take(i as int));
        proof {
            assert(first@.take(i + 1) =~= first@.take(i as int).push(c));
            first@.take(i as int).lemma_filter_push(c, |c: char| c != '-');
        }
        if c != '-' {
            out.push(c);
        }
        i = i + 1;
    }
    assert(first@.take(first@.len() as int) =~= first@);
    out.push('-');
    push_hex(&mut out, (stamp_ms % 0x1_0000_0000) as u64);
    string_of(&out)
}

/// Whether the entry named `a` is listed before the one named `b`: the
/// names start with the date, so a larger name is newer, and newest come first.
pub fn listed_before(a: &str, b: &str) -> (r: bool)
    ensures
        r == lex_less(b@, a@),
{
    let x = chars_of(a);
    let y = chars_of(b);
    let mut i: usize = 0;
    assert(x@.skip(0) =~= x@ && y@.skip(0) =~= y@);
    while i < x.len() && i < y.len() && x[i] == y[i]
        invariant
            i <= x@.len(),
            i <= y@.len(),
            lex_less(y@, x@) == lex_less(y@.skip(i as int), x@.skip(i as int)),
        decreases x@.len() - i,
    {
        assert(y@.skip(i as int).drop_first() =~= y@.skip(i + 1));
        assert(x@.skip(i as int).drop_first() =~= x@.skip(i + 1));
        i = i + 1;
    }
    if i < x.len() && i < y.len() {
        assert(y@.skip(i as int)[0] == y@[i as int]);
        assert(x@.skip(i as int)[0] == x@[i as int]);
        y[i] < x[i]
    } else {
        i < x.len()
    }
}

/// The positions of the entries named `stems`, newest first: names start
/// with the date, so a larger name is newer; equal names keep their order.
pub fn newest_first(stems: &Vec<String>) -> (r: Vec<usize>)
    ensures
        is_permutation(r@, stems@.len() as nat),
        sorted_stably(stems@.map_values(|s: String| s@), r@, true),
{
    let mut keys: Vec<Vec<char>> = Vec::new();
    let mut i: usize = 0;
    while i < stems.len()
        invariant
            i <= stems@.len(),
            keys@.len() == i,
            forall|k: int| 0 <= k < i ==> (#[trigger] keys@[k])@ == stems@[k]@,
        decreases stems@.len() - i,
    {
        keys.push(chars_of(stems[i].as_str()));
        i = i + 1;
    }
    let r = sort_positions(&keys, true);
    assert(keys@.map_values(|k: Vec<char>| k@) =~= stems@.map_values(|s: String| s@));
    r
}

/// Whole milliseconds of a system-clock reading (nanoseconds since 1970,
/// `None` before 1970, which counts as 0), as `Duration::as_millis`.
pub open spec fn millis_of_reading_spec(n: Option<u128>) -> u128 {
    match n {
        Some(n) => n / 1_000_000,
        None => 0,
    }
}

/// Whole milliseconds of a system-clock reading, 0 when it reads before 1970.
pub fn millis_of_reading(n: Option<u128>) -> (r: u128)
    ensures
        r == millis_of_reading_spec(n),
{
    match n {
        Some(n) => n / 1_000_000,
        None => 0,
    }
}

/// Whole milliseconds since 1970 on the system clock, 0 when it reads before 1970.
fn unix_millis() -> (r: u128)
    ensures
        exists|n: Option<u128>| r == millis_of_reading_spec(n),
{
    millis_of_reading(system_time_nanos())
}

/// A replay of the moves of a stored PGN text.
pub fn replay_of_pgn(text: &str) -> (r: Replay)
    ensures
        r.wf(),
        r.idx == 0,
        r.sans_view() == tokens_spec(scan_lines(lines_spec(text@)).movetext),
{
    let parsed = parse_pgn(text);
    let r = Replay::new(parsed.sans);
    assert(r.sans_view() =~= tokens_spec(scan_lines(lines_spec(text@)).movetext));
    r
}

impl History {
    /// The directory this history lives in.
    pub closed spec fn location(self) -> std::path::PathBuf {
        self.dir
    }

    /// `<config_dir>/p2pawn/games`, when the platform has a config directory.
    pub fn default_dir() -> (r: Option<std::path::PathBuf>) {
        match config_dir() {
            Some(d) => Some(path_join(&path_join(&d, "p2pawn"), "games")),
            None => None,
        }
    }

    pub fn new(dir: std::path::PathBuf) -> (h: History)
        ensures
            h.location() == dir,
    {
        History { dir }
    }

    /// The history in the default directory, when there is one.
    pub fn open_default() -> (r: Option<History>) {
        match History::default_dir() {
            Some(d) => Some(History::new(d)),
            None => None,
        }
    }

    /// The file name and text under which a finished game is stored now:
    /// the game's stem (start date and save time) with ".pgn", and its PGN.
    pub fn save_plan(session: &Session, started_iso: &str) -> (r: (String, String))
        ensures
            exists|n: Option<u128>|
                r.0@ == stem_spec(started_iso@, millis_of_reading_spec(n)) + ".pgn"@,
            r.1@ == pgn_spec(*session, started_iso@),
    {
        let ms = unix_millis();
        let stem = history_stem(started_iso, ms);
        let mut name = chars_of(stem.as_str());
        push_str_chars(&mut name, ".pgn");
        (string_of(&name), session_to_pgn(session, started_iso))
    }

    pub fn dir(&self) -> (r: &std::path::PathBuf)
        ensures
            *r == self.location(),
    {
        &self.dir
    }
}

} // verus!
