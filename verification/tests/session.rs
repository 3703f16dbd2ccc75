//! Game sessions: moves, draws, resignation, timeouts and end detection.

use std::collections::HashMap;
use std::time::Duration;

use p2pawn::game::board::{PieceKind, Side};
use p2pawn::game::pgn::session_to_pgn;
use p2pawn::game::session::{Outcome, Session, TimeControl};

fn parse_sq(s: &str) -> u8 {
    let b = s.as_bytes();
    (b[1] - b'1') * 8 + (b[0] - b'a')
}

#[test]
fn full_short_game_mate() {
    let mut s = Session::new("W".into(), "B".into(), Some(Side::White), TimeControl::base_5_0());
    // Fool's mate: f3 e5 g4 Qh4#
    let seq = [("f2", "f3"), ("e7", "e5"), ("g2", "g4"), ("d8", "h4")];
    for (from, to) in seq {
        let rec = s.try_move(parse_sq(from), parse_sq(to), None).expect("legal move");
        assert!(!rec.san.is_empty());
    }
    assert!(s.is_over());
    let end = s.end.as_ref().unwrap();
    assert_eq!(end.outcome, Outcome::Win(Side::Black));
    assert_eq!(s.result_string(), "0-1");
    assert_eq!(s.moves[3].san, "Qh4#");
}

#[test]
fn remote_uci_and_clock_sync() {
    let mut s = Session::new("W".into(), "B".into(), Some(Side::White), TimeControl::base_3_2());
    // White moves locally first (it is white's turn), then black's move
    // arrives from the network.
    s.try_move(parse_sq("e2"), parse_sq("e4"), None).unwrap();
    let rec = s.apply_remote_uci("e7e5", 299_000).unwrap();
    assert_eq!(rec.san, "e5");
    assert_eq!(s.side_to_move(), Side::White);
    // Black's clock was overwritten with the reported time.
    assert_eq!(s.clock.remaining(Side::Black), Duration::from_millis(299_000).as_nanos());
    assert!(s.apply_remote_uci("e2e5", 0).is_none()); // illegal
}

#[test]
fn draw_by_agreement() {
    let mut s = Session::new("W".into(), "B".into(), None, TimeControl::base_5_0());
    s.try_move(parse_sq("e2"), parse_sq("e4"), None).unwrap();
    s.offer_draw(Side::White);
    assert_eq!(s.draw_offered_by, Some(Side::White));
    // Any move cancels the standing offer.
    s.try_move(parse_sq("e7"), parse_sq("e5"), None).unwrap();
    assert_eq!(s.draw_offered_by, None);
    s.offer_draw(Side::Black);
    s.accept_draw();
    assert!(s.is_over());
    assert_eq!(s.result_string(), "1/2-1/2");
}

#[test]
fn threefold_repetition_auto_draw() {
    let mut s = Session::new("W".into(), "B".into(), None, TimeControl::base_5_0());
    // Repeat the position from the start three times.
    let seq = [
        ("g1", "f3"),
        ("g8", "f6"),
        ("f3", "g1"),
        ("f6", "g8"),
        ("g1", "f3"),
        ("g8", "f6"),
        ("f3", "g1"),
        ("f6", "g8"),
    ];
    for (from, to) in seq {
        s.try_move(parse_sq(from), parse_sq(to), None).unwrap();
    }
    assert!(s.is_over());
    assert_eq!(s.result_string(), "1/2-1/2");
    assert!(s.end.unwrap().reason.contains("repetition"));
}

#[test]
fn resignation_and_timeout() {
    let mut s = Session::new("W".into(), "B".into(), Some(Side::White), TimeControl::base_1_0());
    s.resign(Side::Black);
    assert_eq!(s.result_string(), "1-0");
    let mut s2 = Session::new("W".into(), "B".into(), None, TimeControl::base_1_0());
    s2.timeout(Side::White);
    assert_eq!(s2.result_string(), "0-1");
    assert_eq!(s2.end.unwrap().termination, "Time forfeit");
}

#[test]
fn legal_targets_and_promotion_flag() {
    let mut s = Session::new("W".into(), "B".into(), None, TimeControl::base_5_0());
    // 1. a4 b5 2. axb5 a6 3. bxa6 h5 4. a7 h4 5. axb8=Q
    for (from, to) in [
        ("a2", "a4"),
        ("b7", "b5"),
        ("a4", "b5"),
        ("a7", "a6"),
        ("b5", "a6"),
        ("h7", "h5"),
        ("a6", "a7"),
        ("h5", "h4"),
    ] {
        s.try_move(parse_sq(from), parse_sq(to), None).unwrap();
    }
    let targets = s.legal_targets(parse_sq("a7"));
    assert!(targets.contains(&parse_sq("b8")));
    assert!(s.needs_promotion(parse_sq("a7"), parse_sq("b8")));
    assert!(!s.needs_promotion(parse_sq("e2"), parse_sq("e4")));
    let rec = s.try_move(parse_sq("a7"), parse_sq("b8"), Some(PieceKind::Queen)).unwrap();
    assert_eq!(rec.san, "axb8=Q");
    assert_eq!(rec.uci, "a7b8q");
}

#[test]
fn remote_game_until_checkmate() {
    // Fool's mate driven entirely through apply_remote_uci.
    let mut s = Session::new("W".into(), "B".into(), Some(Side::White), TimeControl::base_1_0());
    for uci in ["f2f3", "e7e5", "g2g4", "d8h4"] {
        assert!(s.apply_remote_uci(uci, 60_000).is_some(), "move {uci}");
    }
    assert!(s.is_over());
    assert_eq!(s.result_string(), "0-1");
    assert_eq!(s.moves.last().unwrap().san, "Qh4#");
    // PGN generation works for the finished game.
    let pgn = session_to_pgn(&s, "2026-09-10T10:00:00");
    assert!(pgn.contains("[Result \"0-1\"]"));
    assert!(pgn.contains("Qh4#"));
}

#[test]
fn finished_game_rejects_moves_and_keeps_its_end() {
    let mut s = Session::new("Ann".into(), "Bob".into(), None, TimeControl::base_5_0());
    s.resign(Side::White);
    assert_eq!(s.end.as_ref().unwrap().reason, "Ann resigned");
    assert!(s.try_move(parse_sq("e2"), parse_sq("e4"), None).is_none());
    assert!(s.apply_remote_uci("e2e4", 1000).is_none());
    s.timeout(Side::Black);
    s.abandoned(Side::White);
    s.accept_draw();
    s.offer_draw(Side::Black);
    assert_eq!(s.result_string(), "0-1");
    assert_eq!(s.end.as_ref().unwrap().termination, "Normal");
    assert_eq!(s.draw_offered_by, None);
    assert!(s.clock.frozen());
    assert!(s.moves.is_empty());
}

#[test]
fn abandonment_and_stalemate() {
    let mut s = Session::new("W".into(), "B".into(), Some(Side::Black), TimeControl::base_1_0());
    s.abandoned(Side::Black);
    assert_eq!(s.result_string(), "0-1");
    assert_eq!(s.end.as_ref().unwrap().reason, "opponent disconnected");
    assert_eq!(s.end.as_ref().unwrap().termination, "Abandoned");
    let mut s2 = Session::new("W".into(), "B".into(), None, TimeControl::base_1_0());
    s2.timeout(Side::Black);
    assert_eq!(s2.end.as_ref().unwrap().reason, "B ran out of time");
    assert_eq!(s2.result_string(), "1-0");
}

#[test]
fn increment_is_credited_to_the_mover() {
    let mut s = Session::new("W".into(), "B".into(), None, TimeControl::base_3_2());
    assert_eq!(s.clock.remaining(Side::White), 180_000_000_000);
    s.try_move(parse_sq("e2"), parse_sq("e4"), None).unwrap();
    assert_eq!(s.clock.remaining(Side::White), 182_000_000_000);
    assert_eq!(s.clock.remaining(Side::Black), 180_000_000_000);
    assert_eq!(s.clock.running(), Some(Side::Black));
    assert!(!s.is_my_turn() || s.my_color.is_none());
    assert_eq!(s.name_of(Side::Black), "B");
}

#[test]
fn illegal_local_move_changes_nothing() {
    let mut s = Session::new("W".into(), "B".into(), None, TimeControl::base_5_0());
    assert!(s.try_move(parse_sq("e2"), parse_sq("e5"), None).is_none());
    assert!(s.moves.is_empty());
    assert_eq!(s.side_to_move(), Side::White);
    assert_eq!(s.legal_targets(parse_sq("g1")), vec![parse_sq("f3"), parse_sq("h3")]);
}

#[test]
fn time_control_labels_and_presets() {
    assert_eq!(TimeControl::base_3_2().label(), "3+2");
    assert_eq!(TimeControl::new(600, 0).label(), "10+0");
    assert_eq!(TimeControl::base_1_0().label(), "1+0");
    assert_eq!(TimeControl::base_5_0().label(), "5+0");
    let p = TimeControl::presets();
    assert_eq!(p.len(), 4);
    assert_eq!(p[0], TimeControl::base_1_0());
    assert_eq!(p[3], TimeControl::base_10_0());
    assert_eq!(Outcome::Draw.result_string(), "1/2-1/2");
}

#[test]
fn fifty_quiet_moves_end_as_fifty_move_draw() {
    let mut s = Session::new("W".into(), "B".into(), None, TimeControl::base_5_0());
    // Open the position with pawn moves; the fifty-move count starts after them.
    for (from, to) in [("e2", "e3"), ("e7", "e6"), ("d2", "d3"), ("d7", "d6"), ("g2", "g3"), ("g7", "g6"), ("b2", "b3"), ("b7", "b6")] {
        s.try_move(parse_sq(from), parse_sq(to), None).unwrap();
    }
    assert_eq!(s.quiet_plies, 0);
    let mut seen: HashMap<String, u32> = HashMap::new();
    seen.insert(s.board().fen(), 1);
    let mut plies = 0;
    while !s.is_over() {
        let board = s.board();
        let mut best: Option<(u32, p2pawn::game::board::Mv)> = None;
        for m in board.legal_moves() {
            let piece = board.piece_on(m.from);
            if piece != Some(PieceKind::Knight) && piece != Some(PieceKind::King) {
                continue;
            }
            if board.piece_on(m.to).is_some() {
                continue;
            }
            let next = board.after(m);
            if next.checker_count() > 0 {
                continue;
            }
            let c = seen.get(&next.fen()).copied().unwrap_or(0);
            if c < 2 && best.map_or(true, |(bc, _)| c < bc) {
                best = Some((c, m));
            }
        }
        let (_, m) = best.expect("a quiet move that repeats no position a third time");
        s.try_move(m.from, m.to, m.promo).unwrap();
        *seen.entry(s.board().fen()).or_insert(0) += 1;
        plies += 1;
        assert!(plies <= 300);
    }
    assert!(plies >= 100, "ended after {} plies: {}", plies, s.end.as_ref().unwrap().reason);
    assert_eq!(s.quiet_plies, plies);
    let end = s.end.unwrap();
    assert_eq!(end.outcome, Outcome::Draw);
    assert_eq!(end.reason, "fifty-move rule");
    assert_eq!(end.termination, "Fifty-move rule");
}

#[test]
fn finished_game_stays_as_it_ended() {
    let mut s = Session::new("W".into(), "B".into(), Some(Side::White), TimeControl::base_5_0());
    s.resign(Side::Black);
    let reason = s.end.as_ref().unwrap().reason.clone();
    assert!(s.try_move(parse_sq("e2"), parse_sq("e4"), None).is_none());
    assert!(s.apply_remote_uci("e2e4", 1000).is_none());
    s.offer_draw(Side::White);
    s.accept_draw();
    s.timeout(Side::White);
    s.abandoned(Side::Black);
    assert!(s.moves.is_empty());
    assert!(s.draw_offered_by.is_none());
    assert_eq!(s.end.as_ref().unwrap().reason, reason);
    assert_eq!(s.result_string(), "1-0");
}
