//! What the screens show, and the listing orders.

use p2pawn::app::{coin_from_time, toast_expired, App};
use p2pawn::config::{Config, HintStyle, PieceStyle};
use p2pawn::game::board::{PieceKind, Position, Side};
use p2pawn::game::history::{newest_first, History};
use p2pawn::game::pgn::session_to_pgn;
use p2pawn::game::session::{Session, TimeControl};
use p2pawn::net::discovery::{instance_id_text, is_fresh, peer_order};
use p2pawn::ui::{
    board_cells, captured_string, fmt_clock, game_status_line, header_status, hint_label,
    lobby_footer, on_off, result_glyph, stem_to_date, uni_piece, Mark, Shade,
};

fn square(x: &str) -> u8 {
    let b = x.as_bytes();
    (b[1] - b'1') * 8 + (b[0] - b'a')
}

const SEC: u128 = 1_000_000_000;

#[test]
fn clock_readings() {
    assert_eq!(fmt_clock(300 * SEC), " 5:00.0");
    assert_eq!(fmt_clock(59 * SEC + 950_000_000), " 0:59.9");
    assert_eq!(fmt_clock(3661 * SEC + 500_000_000), " 1:01:01");
    assert_eq!(fmt_clock(36_000 * SEC), "10:00:00");
    assert_eq!(fmt_clock(0), " 0:00.0");
    assert_eq!(fmt_clock(754 * SEC), "12:34.0");
}

#[test]
fn history_dates() {
    assert_eq!(stem_to_date("20260910-a1b2"), "2026-09-10");
    assert_eq!(stem_to_date("20260910"), "2026-09-10");
    assert_eq!(stem_to_date("notadate-x"), "notadate-x");
    assert_eq!(stem_to_date("2026091a-x"), "2026091a-x");
    assert_eq!(stem_to_date("202609101-x"), "202609101-x");
}

#[test]
fn glyphs_and_labels() {
    assert_eq!(uni_piece(PieceKind::Knight, Side::Black, PieceStyle::Unicode), "♞");
    assert_eq!(uni_piece(PieceKind::King, Side::White, PieceStyle::Unicode), "♔");
    assert_eq!(uni_piece(PieceKind::Queen, Side::White, PieceStyle::Ascii), "Q");
    assert_eq!(uni_piece(PieceKind::Pawn, Side::Black, PieceStyle::Ascii), "p");
    assert_eq!(result_glyph("1/2-1/2"), "½-½");
    assert_eq!(result_glyph("1-0"), "1-0");
    assert_eq!(result_glyph("0-1"), "0-1");
    assert_eq!(result_glyph("?"), "*");
    assert_eq!(hint_label(HintStyle::Cursor), "cursor only");
    assert_eq!(hint_label(HintStyle::Off), "off");
    assert_eq!(on_off(true), "on");
}

#[test]
fn captured_pieces() {
    let start = Position::start();
    assert_eq!(captured_string(&start, Side::White), "");
    let mut s = Session::new("W".into(), "B".into(), None, TimeControl::base_5_0());
    s.try_move(square("e2"), square("e4"), None).unwrap();
    s.try_move(square("d7"), square("d5"), None).unwrap();
    s.try_move(square("e4"), square("d5"), None).unwrap();
    s.try_move(square("d8"), square("d5"), None).unwrap();
    assert_eq!(captured_string(s.board(), Side::White), "♟");
    assert_eq!(captured_string(s.board(), Side::Black), "♙");
}

#[test]
fn status_lines() {
    let mut s = Session::new("W".into(), "B".into(), None, TimeControl::base_5_0());
    assert_eq!(game_status_line(&s), "tab flip");
    assert_eq!(header_status(&s), "move 1  white to move  5+0");
    s.try_move(square("e2"), square("e4"), None).unwrap();
    assert_eq!(header_status(&s), "move 1  black to move  5+0");
    let mut lan = Session::new("W".into(), "B".into(), Some(Side::Black), TimeControl::base_3_2());
    assert_eq!(game_status_line(&lan), "waiting...  tab flip");
    lan.resign(Side::Black);
    assert_eq!(header_status(&lan), "1-0  (B resigned)");
    let mut mate = Session::new("W".into(), "B".into(), Some(Side::White), TimeControl::base_1_0());
    for (f, t) in [("f2", "f3"), ("e7", "e5"), ("g2", "g4"), ("d8", "h4")] {
        mate.try_move(square(f), square(t), None).unwrap();
    }
    assert_eq!(game_status_line(&mate), "⚠ CHECK  tab flip");
}

#[test]
fn lobby_footer_text() {
    let mut app = App::new(Config::with_name("tester".to_string()), None);
    assert_eq!(lobby_footer(&app, 2), "2 player(s) on the network   (you: tester)");
    app.lobby_status = "connect failed: refused".into();
    assert_eq!(lobby_footer(&app, 2), "connect failed: refused");
}

#[test]
fn board_cells_show_orientation_cursor_and_hints() {
    let mut app = App::new(Config::with_name("tester".to_string()), None);
    app.start_local_game();
    let cells = board_cells(&app, app.session.as_ref().unwrap().board(), true);
    assert_eq!(cells.len(), 64);
    // White at the bottom: the top-left cell is a8, the bottom-right h1.
    assert_eq!(cells[0].sq, square("a8"));
    assert_eq!(cells[0].glyph, '♜');
    assert_eq!(cells[0].mark, Mark::Piece(Side::Black));
    assert_eq!(cells[63].sq, square("h1"));
    assert_eq!(cells[63].shade, Shade::Light);
    assert_eq!(cells[56].shade, Shade::Dark);
    // The cursor starts on e2.
    assert_eq!(cells[52].sq, square("e2"));
    assert_eq!(cells[52].shade, Shade::Cursor);
    // With e2 selected, e3 and e4 show hints.
    app.selected = Some(square("e2"));
    let cells = board_cells(&app, app.session.as_ref().unwrap().board(), true);
    assert_eq!(cells[44].sq, square("e3"));
    assert_eq!(cells[44].mark, Mark::Hint);
    assert_eq!(cells[44].glyph, '◎');
    assert_eq!(cells[36].mark, Mark::Hint);
    assert_eq!(cells[43].mark, Mark::Empty);
    // Flipped: the top-left cell is h1.
    app.view_flip = true;
    let cells = board_cells(&app, app.session.as_ref().unwrap().board(), true);
    assert_eq!(cells[0].sq, square("h1"));
    // The last move is highlighted.
    app.view_flip = false;
    app.selected = Some(square("e2"));
    app.attempt_move(square("e4"));
    let cells = board_cells(&app, app.session.as_ref().unwrap().board(), true);
    assert_eq!(cells[36].shade, Shade::LastMove);
    assert_eq!(cells[52].shade, Shade::LastMove);
    // In a replay only the board is shown.
    let replay_cells = board_cells(&app, &Position::start(), false);
    assert_eq!(replay_cells[52].shade, Shade::Light);
    assert_eq!(replay_cells[52].glyph, '♙');
}

#[test]
fn listing_orders() {
    let stems: Vec<String> = vec!["20260101-a".into(), "20260910-b".into(), "20250505-c".into()];
    assert_eq!(newest_first(&stems), vec![1, 0, 2]);
    let names: Vec<String> = vec!["bob".into(), "Alice".into(), "carol".into(), "alice".into()];
    assert_eq!(peer_order(&names), vec![1, 3, 0, 2]);
    // Case is ignored: "Carol" sorts after "bob", not before "alice".
    let mixed: Vec<String> = vec!["bob".into(), "Carol".into(), "alice".into()];
    assert_eq!(peer_order(&mixed), vec![2, 0, 1]);
    assert!(is_fresh(5000));
    assert!(!is_fresh(5001));
    assert_eq!(instance_id_text(255), "ff");
    assert_eq!(instance_id_text(0), "0");
}

#[test]
fn save_plan_names_and_text() {
    let mut s = Session::new("Alice".into(), "Bob".into(), None, TimeControl::base_1_0());
    s.try_move(square("e2"), square("e4"), None).unwrap();
    s.resign(Side::Black);
    let (name, text) = History::save_plan(&s, "2026-09-10T09:00:00");
    assert!(name.starts_with("20260910-"));
    assert!(name.ends_with(".pgn"));
    assert_eq!(text, session_to_pgn(&s, "2026-09-10T09:00:00"));
}

#[test]
fn toast_lifetime_and_coin_rule() {
    assert!(!toast_expired(5_999_999_999));
    assert!(toast_expired(6_000_000_000));
    assert!(coin_from_time(Some(3)));
    assert!(!coin_from_time(Some(2_000_000_004)));
    assert!(coin_from_time(Some(1_000_000_001)));
    assert!(coin_from_time(None));
}
