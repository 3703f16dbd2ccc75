//! The application state machine: keys, LAN messages and connection events.

use p2pawn::app::{App, ColorChoice, Effect, Key, KeyCode, Modal, PeerInfo, Screen};
use p2pawn::config::Config;
use p2pawn::game::board::Side;
use p2pawn::game::session::{Outcome, TimeControl};
use p2pawn::input::handle_key;
use p2pawn::net::proto::{GameMsg, PeerStatus};

fn sq(x: &str) -> u8 {
    let b = x.as_bytes();
    (b[1] - b'1') * 8 + (b[0] - b'a')
}

fn test_app() -> App {
    App::new(Config::with_name("tester".to_string()), None)
}

fn press(app: &mut App, code: KeyCode) -> Vec<Effect> {
    let none: Vec<PeerInfo> = Vec::new();
    handle_key(app, Key::press(code), &none, 0)
}

fn play(app: &mut App, from: &str, to: &str) -> Vec<Effect> {
    app.selected = Some(sq(from));
    app.attempt_move(sq(to))
}

#[test]
fn game_screen_renders_board_and_moves() {
    let mut app = test_app();
    app.start_local_game();
    for (from, to) in [("e2", "e4"), ("e7", "e5")] {
        play(&mut app, from, to);
    }
    let sess = app.session.as_ref().unwrap();
    let cells = p2pawn::ui::board_cells(&app, sess.board(), true);
    let glyphs: String = cells.iter().map(|c| c.glyph).collect();
    assert!(glyphs.contains('♙'), "white pawns should render");
    assert!(glyphs.contains('♟'), "black pawns should render");
    let sans: Vec<&str> = sess.moves.iter().map(|m| m.san.as_str()).collect();
    assert!(sans.contains(&"e4"));
    assert!(sans.contains(&"e5"));
}

#[test]
fn checkmate_shows_game_over_modal() {
    let mut app = test_app();
    app.start_local_game();
    for (from, to) in [("f2", "f3"), ("e7", "e5"), ("g2", "g4"), ("d8", "h4")] {
        play(&mut app, from, to);
    }
    assert!(app.session.as_ref().unwrap().is_over());
    assert!(app.modal.is_some());
    assert!(matches!(app.modal, Some(Modal::GameOver)));
    let headline = p2pawn::ui::game_over_headline(app.session.as_ref().unwrap()).unwrap();
    assert_eq!(headline, "Black wins — checkmate");
}

#[test]
fn replay_screen_renders() {
    let mut app = test_app();
    app.replay = Some(p2pawn::game::pgn::Replay::new(vec![
        "e4".into(),
        "e5".into(),
        "Nf3".into(),
    ]));
    app.screen = Screen::Replay;
    let r = app.replay.as_ref().unwrap();
    assert_eq!(format!("move {}/{}", r.idx, r.len()), "move 0/3");
    press(&mut app, KeyCode::Right);
    press(&mut app, KeyCode::Right);
    assert_eq!(app.replay.as_ref().unwrap().idx, 2);
    press(&mut app, KeyCode::Left);
    assert_eq!(app.replay.as_ref().unwrap().idx, 1);
    press(&mut app, KeyCode::End);
    assert_eq!(app.replay.as_ref().unwrap().idx, 3);
    press(&mut app, KeyCode::Home);
    assert_eq!(app.replay.as_ref().unwrap().idx, 0);
    press(&mut app, KeyCode::Esc);
    assert!(app.replay.is_none());
    assert_eq!(app.screen, Screen::History);
}

#[test]
fn menu_renders() {
    let labels: Vec<&str> = (0..6).map(p2pawn::app::menu_item).collect();
    assert!(labels.contains(&"Local Game"));
    assert!(labels.contains(&"LAN Game"));
    assert!(labels.contains(&"Game History"));
    assert!(labels.contains(&"Settings"));
    assert!(labels.contains(&"Quit"));
}

#[test]
fn menu_navigation_wraps_and_opens_screens() {
    let mut app = test_app();
    press(&mut app, KeyCode::Up);
    assert_eq!(app.menu_sel, 5);
    press(&mut app, KeyCode::Down);
    assert_eq!(app.menu_sel, 0);
    let eff = press(&mut app, KeyCode::Down);
    assert!(eff.is_empty());
    let eff = press(&mut app, KeyCode::Enter);
    assert_eq!(app.screen, Screen::Lobby);
    assert_eq!(eff.len(), 1);
    assert!(matches!(eff[0], Effect::RefreshPeers));
    press(&mut app, KeyCode::Esc);
    assert_eq!(app.screen, Screen::Menu);
    press(&mut app, KeyCode::Char('q'));
    assert!(matches!(app.modal, Some(Modal::QuitConfirm { sel: 0 })));
    press(&mut app, KeyCode::Right);
    assert!(matches!(app.modal, Some(Modal::QuitConfirm { sel: 1 })));
    press(&mut app, KeyCode::Enter);
    assert!(app.modal.is_none());
    assert!(!app.quit);
    press(&mut app, KeyCode::Esc);
    press(&mut app, KeyCode::Enter);
    assert!(app.quit);
}

#[test]
fn ctrl_c_quits_and_releases_are_ignored() {
    let mut app = test_app();
    let none: Vec<PeerInfo> = Vec::new();
    let release = Key { code: KeyCode::Down, ctrl: false, press: false };
    handle_key(&mut app, release, &none, 0);
    assert_eq!(app.menu_sel, 0);
    let ctrl_c = Key { code: KeyCode::Char('c'), ctrl: true, press: true };
    handle_key(&mut app, ctrl_c, &none, 0);
    assert!(app.quit);
}

#[test]
fn local_setup_cycles_and_starts_a_game() {
    let mut app = test_app();
    press(&mut app, KeyCode::Enter);
    assert_eq!(app.screen, Screen::LocalSetup);
    assert_eq!(app.setup_tc, TimeControl::new(300, 0));
    press(&mut app, KeyCode::Right);
    assert_eq!(app.setup_color, ColorChoice::Black);
    press(&mut app, KeyCode::Enter);
    assert_eq!(app.setup_color, ColorChoice::Random);
    press(&mut app, KeyCode::Left);
    assert_eq!(app.setup_color, ColorChoice::Black);
    press(&mut app, KeyCode::Down);
    press(&mut app, KeyCode::Right);
    assert_eq!(app.setup_tc, TimeControl::new(600, 0));
    press(&mut app, KeyCode::Right);
    assert_eq!(app.setup_tc, TimeControl::new(60, 0));
    press(&mut app, KeyCode::Left);
    assert_eq!(app.setup_tc, TimeControl::new(600, 0));
    press(&mut app, KeyCode::Down);
    press(&mut app, KeyCode::Enter);
    assert_eq!(app.screen, Screen::Playing);
    let s = app.session.as_ref().unwrap();
    assert_eq!(s.white_name, "White");
    assert_eq!(s.black_name, "tester");
    assert_eq!(s.my_color, None);
    assert_eq!(s.tc, TimeControl::new(600, 0));
    assert_eq!(s.clock.running(), Some(Side::White));
    assert_eq!(app.cursor, Some(sq("e2")));
    assert_eq!(app.started_iso.len(), 19);
}

#[test]
fn moving_with_the_cursor() {
    let mut app = test_app();
    app.start_local_game();
    press(&mut app, KeyCode::Enter);
    assert_eq!(app.selected, Some(sq("e2")));
    press(&mut app, KeyCode::Up);
    press(&mut app, KeyCode::Up);
    assert_eq!(app.cursor, Some(sq("e4")));
    let eff = press(&mut app, KeyCode::Enter);
    assert!(eff.is_empty());
    assert_eq!(app.selected, None);
    let s = app.session.as_ref().unwrap();
    assert_eq!(s.moves.len(), 1);
    assert_eq!(s.moves[0].uci, "e2e4");
    assert_eq!(app.last_move_squares(), Some((sq("e2"), sq("e4"))));
    // An empty square cannot be selected.
    app.cursor = Some(sq("e4"));
    press(&mut app, KeyCode::Down);
    press(&mut app, KeyCode::Enter);
    assert_eq!(app.selected, None);
    // Tab flips the view, and the cursor then moves the other way.
    press(&mut app, KeyCode::Tab);
    assert!(app.view_flipped());
    press(&mut app, KeyCode::Up);
    assert_eq!(app.cursor, Some(sq("e2")));
    // The cursor stops at the edge.
    app.cursor = Some(sq("a1"));
    press(&mut app, KeyCode::Right);
    assert_eq!(app.cursor, Some(sq("a1")));
}

#[test]
fn promotion_picker_cycles_and_promotes() {
    let mut app = test_app();
    app.start_local_game();
    let line = [
        ("a2", "a4"), ("b7", "b5"), ("a4", "b5"), ("a7", "a6"), ("b5", "a6"), ("c8", "b7"),
    ];
    for (from, to) in line {
        play(&mut app, from, to);
    }
    play(&mut app, "a6", "b7");
    play(&mut app, "h7", "h6");
    app.selected = Some(sq("b7"));
    app.attempt_move(sq("a8"));
    assert!(matches!(app.modal, Some(Modal::Promotion { sel: 0, .. })));
    press(&mut app, KeyCode::Up);
    assert!(matches!(app.modal, Some(Modal::Promotion { sel: 3, .. })));
    press(&mut app, KeyCode::Enter);
    assert!(app.modal.is_none());
    let s = app.session.as_ref().unwrap();
    assert_eq!(s.moves.last().unwrap().uci, "b7a8n");
    assert_eq!(s.moves.last().unwrap().san, "bxa8=N");
}

#[test]
fn game_menu_offers_draw_only_in_lan_games() {
    let mut app = test_app();
    app.start_local_game();
    press(&mut app, KeyCode::Esc);
    assert!(matches!(app.modal, Some(Modal::GameMenu { sel: 0 })));
    press(&mut app, KeyCode::Down);
    press(&mut app, KeyCode::Enter);
    assert!(app.modal.is_none());
    assert_eq!(app.toast.as_ref().unwrap().0, "draw offers are for LAN games");
    // Leave from the menu: confirm dialog, then back to the main menu.
    press(&mut app, KeyCode::Esc);
    press(&mut app, KeyCode::Up);
    press(&mut app, KeyCode::Enter);
    assert!(matches!(app.modal, Some(Modal::LeaveConfirm { sel: 0 })));
    let eff = press(&mut app, KeyCode::Enter);
    assert_eq!(app.screen, Screen::Menu);
    assert!(app.session.is_none());
    assert_eq!(eff.len(), 1);
    assert!(matches!(eff[0], Effect::SetStatus(PeerStatus::Ready)));
}

#[test]
fn checkmate_then_enter_returns_to_menu() {
    let mut app = test_app();
    app.start_local_game();
    let mut last = Vec::new();
    for (from, to) in [("f2", "f3"), ("e7", "e5"), ("g2", "g4"), ("d8", "h4")] {
        last = play(&mut app, from, to);
    }
    assert!(app.game_saved);
    assert_eq!(last.len(), 1);
    assert!(matches!(last[0], Effect::SetStatus(PeerStatus::Ready)));
    assert_eq!(app.check_square(), Some(sq("e1")));
    // Further keys on the board do nothing once the game is over.
    press(&mut app, KeyCode::Esc);
    assert!(app.modal.is_none());
    press(&mut app, KeyCode::Enter);
    assert_eq!(app.session.as_ref().unwrap().moves.len(), 4);
    press(&mut app, KeyCode::Esc);
    assert_eq!(app.screen, Screen::Menu);
    assert!(app.session.is_none());
}

#[test]
fn busy_app_turns_away_incoming_connections() {
    let mut app = test_app();
    app.start_local_game();
    let eff = app.handle_incoming();
    assert_eq!(eff.len(), 2);
    match &eff[0] {
        Effect::SendIncoming(GameMsg::Decline { reason }) => assert_eq!(reason, "busy"),
        _ => panic!("expected a decline"),
    }
    assert!(matches!(eff[1], Effect::CloseIncoming));
    assert!(!app.pending_open);
    assert!(app.session.is_some());
}

#[test]
fn invited_side_accepts_and_plays() {
    let mut app = test_app();
    let eff = app.handle_incoming();
    assert_eq!(eff.len(), 1);
    assert!(matches!(eff[0], Effect::AdoptIncoming));
    app.handle_msg(GameMsg::Invite { name: "alice".into(), tc_secs: 300, tc_inc: 5 });
    assert!(matches!(app.modal, Some(Modal::IncomingInvite { sel: 0 })));
    assert_eq!(app.invite_peer.as_deref(), Some("alice"));
    assert_eq!(app.invite_tc, TimeControl::new(300, 5));
    let eff = press(&mut app, KeyCode::Enter);
    assert_eq!(eff.len(), 1);
    assert!(matches!(eff[0], Effect::SendPending(GameMsg::Accept)));
    assert_eq!(app.toast.as_ref().unwrap().0, "waiting for the game to start...");
    let eff = app.handle_msg(GameMsg::Start {
        white_name: "alice".into(),
        black_name: "tester".into(),
        you_are_white: false,
        tc_secs: 300,
        tc_inc: 5,
    });
    assert_eq!(eff.len(), 2);
    assert!(matches!(eff[0], Effect::PromotePending));
    assert!(matches!(eff[1], Effect::SetStatus(PeerStatus::Playing)));
    assert!(app.conn_open && !app.pending_open);
    assert_eq!(app.cursor, Some(sq("e7")));
    assert!(app.view_flipped());
    let s = app.session.as_ref().unwrap();
    assert_eq!(s.my_color, Some(Side::Black));
    assert_eq!(s.white_name, "alice");
    // Not our turn: our pieces cannot be picked.
    press(&mut app, KeyCode::Enter);
    assert_eq!(app.selected, None);
    // The opponent's move arrives with their clock.
    let eff = app.handle_msg(GameMsg::Move { uci: "e2e4".into(), clock_ms: 290_000 });
    assert!(eff.is_empty());
    let s = app.session.as_ref().unwrap();
    assert_eq!(s.moves.len(), 1);
    assert_eq!(s.clock.remaining(Side::White), 290_000 * 1_000_000);
    // Our reply is sent with our remaining time.
    let eff = play(&mut app, "e7", "e5");
    assert_eq!(eff.len(), 1);
    match &eff[0] {
        Effect::Send(GameMsg::Move { uci, clock_ms }) => {
            assert_eq!(uci, "e7e5");
            assert!(*clock_ms <= 305_000);
        }
        _ => panic!("expected our move"),
    }
    // A draw offer opens the dialog; declining is sent back.
    app.handle_msg(GameMsg::DrawOffer);
    assert!(matches!(app.modal, Some(Modal::DrawIncoming)));
    let eff = press(&mut app, KeyCode::Char('n'));
    assert_eq!(eff.len(), 1);
    assert!(matches!(eff[0], Effect::Send(GameMsg::DrawDecline)));
    assert!(app.modal.is_none());
    assert_eq!(app.session.as_ref().unwrap().draw_offered_by, None);
    // The opponent resigns: we win.
    let eff = app.handle_msg(GameMsg::Resign);
    assert_eq!(eff.len(), 1);
    assert!(matches!(eff[0], Effect::SetStatus(PeerStatus::Ready)));
    let s = app.session.as_ref().unwrap();
    assert_eq!(s.result_string(), "0-1");
    assert_eq!(s.end.as_ref().unwrap().reason, "alice resigned");
    assert!(matches!(app.modal, Some(Modal::GameOver)));
}

#[test]
fn inviting_side_dials_and_starts() {
    let mut app = test_app();
    app.screen = Screen::Lobby;
    let peers = vec![
        PeerInfo { name: "bob".into(), status: PeerStatus::Ready },
        PeerInfo { name: "carol".into(), status: PeerStatus::Playing },
    ];
    let eff = handle_key(&mut app, Key::press(KeyCode::Down), &peers, 0);
    assert!(eff.is_empty());
    handle_key(&mut app, Key::press(KeyCode::Enter), &peers, 0);
    assert_eq!(app.lobby_status, "carol is already playing");
    handle_key(&mut app, Key::press(KeyCode::Down), &peers, 0);
    assert_eq!(app.lobby_sel, 0);
    let eff = handle_key(&mut app, Key::press(KeyCode::Enter), &peers, 0);
    assert_eq!(eff.len(), 1);
    assert!(matches!(eff[0], Effect::Dial(0)));
    assert_eq!(app.invite_peer.as_deref(), Some("bob"));
    let eff = app.on_dialed(Ok(()));
    match &eff[0] {
        Effect::Send(GameMsg::Invite { name, tc_secs, tc_inc }) => {
            assert_eq!(name, "tester");
            assert_eq!((*tc_secs, *tc_inc), (300, 0));
        }
        _ => panic!("expected the invite"),
    }
    match &app.modal {
        Some(Modal::InviteWait { peer }) => assert_eq!(peer, "bob"),
        _ => panic!("expected to wait"),
    }
    let eff = app.handle_msg(GameMsg::Accept);
    assert_eq!(eff.len(), 2);
    let s = app.session.as_ref().unwrap();
    let mine_white = s.my_color == Some(Side::White);
    match &eff[0] {
        Effect::Send(GameMsg::Start { white_name, black_name, you_are_white, tc_secs, .. }) => {
            assert_eq!(*you_are_white, !mine_white);
            assert_eq!(white_name, &s.white_name);
            assert_eq!(black_name, &s.black_name);
            assert_eq!(*tc_secs, 300);
        }
        _ => panic!("expected the start"),
    }
    if mine_white {
        assert_eq!((s.white_name.as_str(), s.black_name.as_str()), ("tester", "bob"));
    } else {
        assert_eq!((s.white_name.as_str(), s.black_name.as_str()), ("bob", "tester"));
    }
    assert!(matches!(eff[1], Effect::SetStatus(PeerStatus::Playing)));
    assert!(app.modal.is_none());
}

#[test]
fn failed_dial_and_declined_invite() {
    let mut app = test_app();
    app.screen = Screen::Lobby;
    app.invite_peer = Some("bob".into());
    let eff = app.on_dialed(Err("refused".into()));
    assert!(eff.is_empty());
    assert_eq!(app.lobby_status, "connect failed: refused");
    app.on_dialed(Ok(()));
    let eff = app.handle_msg(GameMsg::Decline { reason: "busy".into() });
    assert_eq!(eff.len(), 1);
    assert!(matches!(eff[0], Effect::DropConn));
    match &app.modal {
        Some(Modal::Info { title, body }) => {
            assert_eq!(title, "Invite declined");
            assert_eq!(body, "Reason: busy");
        }
        _ => panic!("expected the info dialog"),
    }
    assert!(!app.conn_open);
    // Any key closes the information dialog.
    press(&mut app, KeyCode::Char('x'));
    assert!(app.modal.is_none());
    // A connection failure during the handshake is shown in the lobby.
    let eff = app.handle_disconnect("reset");
    assert!(eff.is_empty());
    assert_eq!(app.lobby_status, "connection failed: reset");
}

#[test]
fn opponent_leaving_counts_as_abandonment() {
    let mut app = test_app();
    app.handle_incoming();
    app.handle_msg(GameMsg::Start {
        white_name: "tester".into(),
        black_name: "bob".into(),
        you_are_white: true,
        tc_secs: 60,
        tc_inc: 0,
    });
    let eff = app.handle_disconnect("connection closed");
    assert_eq!(eff.len(), 2);
    assert!(matches!(eff[0], Effect::CloseConn));
    assert!(matches!(eff[1], Effect::SetStatus(PeerStatus::Ready)));
    let s = app.session.as_ref().unwrap();
    assert_eq!(s.end.as_ref().unwrap().outcome, Outcome::Win(Side::White));
    assert_eq!(s.end.as_ref().unwrap().reason, "opponent disconnected");
    assert!(!app.conn_open);
}

#[test]
fn our_flag_falling_is_reported() {
    let mut app = test_app();
    app.handle_incoming();
    app.handle_msg(GameMsg::Start {
        white_name: "tester".into(),
        black_name: "bob".into(),
        you_are_white: true,
        tc_secs: 60,
        tc_inc: 0,
    });
    app.session.as_mut().unwrap().clock.set_remaining(Side::White, 0);
    let eff = app.tick();
    assert_eq!(eff.len(), 2);
    assert!(matches!(eff[0], Effect::Send(GameMsg::Timeout)));
    assert!(matches!(eff[1], Effect::SetStatus(PeerStatus::Ready)));
    let s = app.session.as_ref().unwrap();
    assert_eq!(s.end.as_ref().unwrap().outcome, Outcome::Win(Side::Black));
    assert_eq!(s.end.as_ref().unwrap().termination, "Time forfeit");
}

#[test]
fn settings_edit_the_name_and_save() {
    let mut app = test_app();
    app.screen = Screen::Settings;
    let eff = press(&mut app, KeyCode::Enter);
    assert!(app.settings_editing_name);
    assert_eq!(eff.len(), 1);
    press(&mut app, KeyCode::Backspace);
    assert_eq!(app.config.player_name, "teste");
    press(&mut app, KeyCode::Char('x'));
    press(&mut app, KeyCode::Char('\u{7}'));
    assert_eq!(app.config.player_name, "testex");
    let eff = press(&mut app, KeyCode::Enter);
    assert!(!app.settings_editing_name);
    assert!(matches!(eff[0], Effect::SaveConfig));
    press(&mut app, KeyCode::Down);
    press(&mut app, KeyCode::Right);
    assert_eq!(app.config.piece_style, p2pawn::config::PieceStyle::Ascii);
    press(&mut app, KeyCode::Up);
    press(&mut app, KeyCode::Up);
    let eff = press(&mut app, KeyCode::Enter);
    assert_eq!(app.screen, Screen::Menu);
    assert!(eff.is_empty());
}

#[test]
fn history_selection_and_delete() {
    let mut app = test_app();
    app.screen = Screen::History;
    let none: Vec<PeerInfo> = Vec::new();
    handle_key(&mut app, Key::press(KeyCode::Up), &none, 3);
    assert_eq!(app.history_sel, 2);
    handle_key(&mut app, Key::press(KeyCode::Char('d')), &none, 3);
    assert!(matches!(app.modal, Some(Modal::DeleteConfirm { sel: 0 })));
    // Without a history directory the selection just steps back.
    handle_key(&mut app, Key::press(KeyCode::Enter), &none, 3);
    assert_eq!(app.history_sel, 1);
    app.after_delete(2);
    assert_eq!(app.history_sel, 0);
    handle_key(&mut app, Key::press(KeyCode::Char('d')), &none, 0);
    assert!(app.modal.is_none());
}
