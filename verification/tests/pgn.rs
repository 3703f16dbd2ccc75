//! PGN generation, parsing and replay.

use p2pawn::game::board::{BoardStatus, Position, Side};
use p2pawn::game::pgn::{
    escape_tag, iso_to_pgn_date, parse_pgn, session_to_pgn, tc_to_pgn, tokenize_movetext, Replay,
};
use p2pawn::game::session::{Session, TimeControl};

const SAMPLE: &str = r#"[Event "p2pawn LAN game"]
[Site "LAN"]
[Date "2026.09.10"]
[Round "-"]
[White "Alice"]
[Black "Bob"]
[Result "0-1"]
[Termination "Normal"]

1. f3 {oops} e5 2. g4 Qh4# 0-1
"#;

fn sq(x: &str) -> u8 {
    let b = x.as_bytes();
    (b[1] - b'1') * 8 + (b[0] - b'a')
}

#[test]
fn parse_and_replay_sample() {
    let pgn = parse_pgn(SAMPLE);
    assert_eq!(pgn.white, "Alice");
    assert_eq!(pgn.black, "Bob");
    assert_eq!(pgn.result, "0-1");
    assert_eq!(pgn.sans, vec!["f3", "e5", "g4", "Qh4#"]);

    let mut r = Replay::new(pgn.sans.clone());
    assert!(r.next());
    assert!(r.next());
    assert!(r.next());
    assert!(r.next());
    assert!(!r.next());
    assert_eq!(r.board().status(), BoardStatus::Checkmate);
    // Compare the piece placement and side to move; the chess crate's
    // halfmove/fullmove counters in Board's FEN are not game-aware.
    let fen = r.board().fen();
    let fields: Vec<&str> = fen.split(' ').collect();
    assert_eq!(fields[..3].join(" "), "rnb1kbnr/pppp1ppp/8/4p3/6Pq/5P2/PPPPP2P/RNBQKBNR w KQkq");
    assert!(r.prev());
    assert!(r.prev());
    r.first();
    assert_eq!(r.board().fen(), Position::start().fen());
    r.last();
    assert!(r.at_end());
}

#[test]
fn generated_pgn_roundtrip() {
    let mut s = Session::new("Alice".into(), "Bob".into(), None, TimeControl::base_3_2());
    s.try_move(sq("e2"), sq("e4"), None).unwrap();
    let pgn = session_to_pgn(&s, "2026-09-10T09:00:00");
    assert!(pgn.contains("[White \"Alice\"]"));
    assert!(pgn.contains("[Date \"2026.09.10\"]"));
    assert!(pgn.contains("[TimeControl \"180+2\"]"));
    assert!(pgn.contains("1. e4"));

    let parsed = parse_pgn(&pgn);
    assert_eq!(parsed.sans, vec!["e4"]);
    let mut r = Replay::new(parsed.sans);
    assert!(r.next());
    let fen = r.board().fen();
    let fields: Vec<&str> = fen.split(' ').collect();
    // Placement + side to move + castling rights (en-passant and move
    // counters in the chess crate's Board FEN are not game-aware).
    assert_eq!(fields[..3].join(" "), "rnbqkbnr/pppppppp/8/8/4P3/8/PPPP1PPP/RNBQKBNR b KQkq");
}

#[test]
fn exact_pgn_of_a_finished_game() {
    let mut s = Session::new("A \"x\"".into(), "B\\y".into(), None, TimeControl::base_5_0());
    for (f, t) in [("f2", "f3"), ("e7", "e5"), ("g2", "g4"), ("d8", "h4")] {
        s.try_move(sq(f), sq(t), None).unwrap();
    }
    let pgn = session_to_pgn(&s, "2026-01-02T03:04:05");
    assert_eq!(
        pgn,
        "[Event \"p2pawn LAN game\"]\n[Site \"LAN\"]\n[Date \"2026.01.02\"]\n[Round \"-\"]\n\
         [White \"A \\\"x\\\"\"]\n[Black \"B\\\\y\"]\n[Result \"0-1\"]\n[Termination \"Normal\"]\n\
         [TimeControl \"300\"]\n\n1. f3 e5 2. g4 Qh4#\n0-1\n"
    );
}

#[test]
fn long_movetext_wraps_before_78_bytes() {
    let mut s = Session::new("W".into(), "B".into(), None, TimeControl::base_5_0());
    let shuffle = [("g1", "f3"), ("b8", "c6"), ("f3", "g1"), ("c6", "b8")];
    // Knights out and back, twice, then other moves to avoid a repetition draw.
    for (f, t) in shuffle {
        s.try_move(sq(f), sq(t), None).unwrap();
    }
    for (f, t) in [("e2", "e4"), ("e7", "e5"), ("d2", "d4"), ("d7", "d5")] {
        s.try_move(sq(f), sq(t), None).unwrap();
    }
    for (f, t) in shuffle {
        s.try_move(sq(f), sq(t), None).unwrap();
    }
    for (f, t) in [("c2", "c4"), ("c7", "c5"), ("a2", "a3"), ("a7", "a6")] {
        s.try_move(sq(f), sq(t), None).unwrap();
    }
    let pgn = session_to_pgn(&s, "2026-01-02T03:04:05");
    let movetext: Vec<&str> = pgn.lines().skip(10).collect();
    assert!(movetext.len() >= 2, "{pgn}");
    for line in &movetext {
        assert!(line.len() <= 78);
        assert_eq!(line.trim_end(), *line);
    }
    let parsed = parse_pgn(&pgn);
    let sans: Vec<String> = s.moves.iter().map(|m| m.san.clone()).collect();
    assert_eq!(parsed.sans, sans);
}

#[test]
fn tag_helpers() {
    assert_eq!(escape_tag("a\"b\\c"), "a\\\"b\\\\c");
    assert_eq!(iso_to_pgn_date("2026-09-10T15:04:05"), "2026.09.10");
    assert_eq!(iso_to_pgn_date("no-time"), "no.time");
    assert_eq!(tc_to_pgn(300, 0), "300");
    assert_eq!(tc_to_pgn(180, 2), "180+2");
}

#[test]
fn parse_defaults_comments_and_nags() {
    let p = parse_pgn("1. e4 $1 ; rest is a comment e5\n");
    assert_eq!(p.white, "White");
    assert_eq!(p.black, "Black");
    assert_eq!(p.result, "");
    assert_eq!(p.sans, vec!["e4"]);
    let p = parse_pgn("[Event \"\"x\"\"]\r\n[Date 2026]\n[Broken \"x\"\n1... e5 *\n");
    assert_eq!(p.event, "x");
    assert_eq!(p.date, "2026");
    assert_eq!(p.sans, vec!["e5"]);
}

#[test]
fn replay_stops_on_a_bad_token() {
    let mut r = Replay::new(vec!["e4".into(), "Ke3".into(), "e5".into()]);
    assert_eq!(r.len(), 3);
    assert_eq!(r.san_at(1), Some("Ke3"));
    assert_eq!(r.san_at(3), None);
    assert!(r.next());
    assert!(!r.next());
    assert_eq!(r.idx, 1);
    r.last();
    assert_eq!(r.idx, 1);
    assert!(!r.at_end());
    assert!(r.prev());
    assert_eq!(r.idx, 0);
    assert!(!r.prev());
}

#[test]
fn replay_prev_undoes_next() {
    let mut r = Replay::new(vec!["e4".into(), "e5".into(), "Nf3".into()]);
    r.next();
    let before = r.board().fen();
    assert!(r.next());
    assert!(r.prev());
    assert_eq!(r.board().fen(), before);
    assert_eq!(r.idx, 1);
    assert_eq!(r.board().side_to_move(), Side::Black);
}

#[test]
fn semicolon_comment_ends_with_its_line() {
    let p = parse_pgn("[White \"A\"]\n\n1. e4 ; comment\n1... e5 2. Nf3 *\n");
    assert_eq!(p.white, "A");
    assert_eq!(p.sans, vec!["e4", "e5", "Nf3"]);
}

#[test]
fn move_numbers_glued_to_moves() {
    let p = parse_pgn("1.e4 e5 2.Nf3 Nc6 3...a6 *");
    assert_eq!(p.sans, vec!["e4", "e5", "Nf3", "Nc6", "a6"]);
}

#[test]
fn movetext_tokens_are_bare_moves() {
    let text: Vec<char> = "1.e4 {a comment} e5 $1 2. Nf3 ; to the end\n2...Nc6 1-0".chars().collect();
    let toks = tokenize_movetext(&text);
    assert_eq!(toks, vec!["e4", "e5", "Nf3", "Nc6"]);
    for t in &toks {
        assert!(!t.is_empty() && !t.ends_with('.') && !t.starts_with('$'));
        assert!(!t.contains(char::is_whitespace) && !t.contains('{') && !t.contains(';'));
    }
}

#[test]
fn termination_reads_back() {
    let mut s = Session::new("W".into(), "B".into(), None, TimeControl::base_5_0());
    s.resign(Side::White);
    let p = parse_pgn(&session_to_pgn(&s, "2026-09-10T10:00:00"));
    assert_eq!(p.termination, "Normal");
    assert_eq!(p.result, "0-1");
    let running = Session::new("W".into(), "B".into(), None, TimeControl::base_5_0());
    let q = parse_pgn(&session_to_pgn(&running, "2026-09-10T10:00\n:00"));
    assert_eq!(q.termination, "");
    assert_eq!(q.white, "W");
}

#[test]
fn tokens_keep_their_order() {
    let a: Vec<char> = "1. e4 e5".chars().collect();
    let b: Vec<char> = "2. Nf3 Nc6".chars().collect();
    let mut ab = a.clone();
    ab.push(' ');
    ab.extend(b.iter());
    let mut expected = tokenize_movetext(&a);
    expected.extend(tokenize_movetext(&b));
    assert_eq!(tokenize_movetext(&ab), expected);
    assert_eq!(expected, vec!["e4", "e5", "Nf3", "Nc6"]);
}
