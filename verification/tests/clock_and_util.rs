//! Clock semantics, timestamps, configuration rules and protocol helpers.

use std::time::{Duration, Instant};

use p2pawn::config::{default_player_name, sanitize_name, Config, HintStyle, PieceStyle};
use p2pawn::game::board::Side;
use p2pawn::game::clock::Clock;
use p2pawn::game::history::{history_stem, listed_before, millis_of_reading};
use p2pawn::game::session::TimeControl;
use p2pawn::net::proto::{broadcast_targets, subnet_broadcast, wanted_interface, Beacon, PeerStatus, PROTO_VERSION};
use p2pawn::util::{epoch_to_iso, secs_of_reading};

fn wait(ms: u64) {
    let start = Instant::now();
    while start.elapsed() < Duration::from_millis(ms) {}
}

#[test]
fn switch_and_increment() {
    let mut c = Clock::new(Duration::from_secs(60).as_nanos(), Duration::from_secs(2).as_nanos());
    c.start(Side::White);
    wait(50);
    c.switch(Side::White);
    assert!(c.remaining(Side::White) > Duration::from_secs(60).as_nanos());
    assert!(c.remaining(Side::White) <= Duration::from_secs(62).as_nanos());
    assert_eq!(c.running(), Some(Side::Black));
}

#[test]
fn flag_detection() {
    let mut c = Clock::new(Duration::from_millis(30).as_nanos(), Duration::from_secs(0).as_nanos());
    c.start(Side::White);
    wait(60);
    c.tick();
    assert_eq!(c.flagged(), Some(Side::White));
    c.freeze();
    assert_eq!(c.flagged(), None);
}

#[test]
fn tick_by_saturates_and_frozen_clock_is_inert() {
    let mut c = Clock::new(1_000, 7);
    c.tick_by(500);
    assert_eq!(c.remaining(Side::White), 1_000); // not running yet
    c.start(Side::Black);
    c.tick_by(400);
    assert_eq!(c.remaining(Side::Black), 600);
    c.tick_by(10_000);
    assert_eq!(c.remaining(Side::Black), 0);
    assert_eq!(c.flagged(), Some(Side::Black));
    c.freeze();
    c.switch(Side::White);
    c.start(Side::White);
    c.tick_by(10);
    assert_eq!(c.remaining(Side::White), 1_000);
    assert_eq!(c.running(), None);
    c.set_remaining(Side::White, 5);
    assert_eq!(c.remaining(Side::White), 5);
    assert_eq!(Clock::label(300_000_000_000, 3_000_000_000), "5+3");
}

#[test]
fn known_dates() {
    assert_eq!(epoch_to_iso(0), "1970-01-01T00:00:00");
    assert_eq!(epoch_to_iso(1_000_000_000), "2001-09-09T01:46:40");
    assert_eq!(epoch_to_iso(1_757_462_400), "2025-09-10T00:00:00");
    // Leap year boundary.
    assert_eq!(epoch_to_iso(951_782_400), "2000-02-29T00:00:00");
}

#[test]
fn dates_before_1970_and_century_boundaries() {
    assert_eq!(epoch_to_iso(-1), "1969-12-31T23:59:59");
    // 1900-03-01: not a leap year.
    assert_eq!(epoch_to_iso(-2_203_891_200), "1900-03-01T00:00:00");
    // 2100-03-01: not a leap year either.
    assert_eq!(epoch_to_iso(4_107_542_400), "2100-03-01T00:00:00");
    assert_eq!(epoch_to_iso(-62_167_219_200), "0000-01-01T00:00:00");
    assert_eq!(epoch_to_iso(-62_167_219_201), "-001-12-31T23:59:59");
}

#[test]
fn config_toggles_and_presets() {
    let mut cfg = Config::with_name("tester".into());
    assert_eq!(cfg.default_tc(), TimeControl::new(300, 0));
    cfg.toggle_piece_style();
    assert_eq!(cfg.piece_style, PieceStyle::Ascii);
    cfg.toggle_piece_style();
    assert_eq!(cfg.piece_style, PieceStyle::Unicode);
    cfg.toggle_hints();
    cfg.toggle_hints();
    assert_eq!(cfg.show_hints, HintStyle::Off);
    cfg.toggle_hints();
    assert_eq!(cfg.show_hints, HintStyle::All);
    cfg.cycle_time_control();
    assert_eq!(cfg.default_tc(), TimeControl::new(600, 0));
    cfg.cycle_time_control();
    assert_eq!(cfg.default_tc(), TimeControl::new(60, 0));
    cfg.tc_base_secs = 7;
    cfg.cycle_time_control();
    assert_eq!(cfg.default_tc(), TimeControl::new(180, 2));
    assert_eq!(PieceStyle::Ascii.label(), "ASCII (N)");
}

#[test]
fn player_names() {
    assert_eq!(default_player_name(None), "Player");
    assert_eq!(default_player_name(Some("abcdefghijklmnopqrstuvwxyz")), "abcdefghijklmnopqrst");
    assert_eq!(sanitize_name("Al\u{7}ice\n").as_deref(), Some("Alice"));
    assert_eq!(sanitize_name("\n\t"), None);
}

#[test]
fn history_names_and_order() {
    assert_eq!(history_stem("2026-09-10T14:22:33", 0x1_a1b2_c3d4), "20260910-a1b2c3d4");
    assert_eq!(history_stem("unknown", 255), "unknown-ff");
    assert!(listed_before("20260910-1", "20260909-f"));
    assert!(!listed_before("20260909-f", "20260910-1"));
    assert!(listed_before("20260910-12", "20260910-1"));
    assert!(!listed_before("same", "same"));
}

#[test]
fn protocol_helpers() {
    assert_eq!(subnet_broadcast(0xc0a8_0105, 0xffff_ff00), 0xc0a8_01ff);
    assert_eq!(
        broadcast_targets(&vec![0xc0a8_01ff, 0xffff_ffff, 0xc0a8_01ff, 0x0a00_00ff]),
        vec![0xffff_ffff, 0xc0a8_01ff, 0x0a00_00ff]
    );
    let b = Beacon {
        id: "abc".into(),
        name: "alice".into(),
        status: PeerStatus::Ready,
        tcp_port: 47611,
        proto: PROTO_VERSION,
    };
    assert!(b.is_foreign("xyz"));
    assert!(!b.is_foreign("abc"));
    assert_eq!(PeerStatus::from_code(PeerStatus::Playing.code()), PeerStatus::Playing);
    assert_eq!(PeerStatus::Ready.label(), "Ready");
}

#[test]
fn readings_of_the_system_clock() {
    assert_eq!(secs_of_reading(Some(1_757_462_400_999_999_999)), 1_757_462_400);
    assert_eq!(secs_of_reading(None), 0);
    assert_eq!(millis_of_reading(Some(1_757_462_400_123_456_789)), 1_757_462_400_123);
    assert_eq!(millis_of_reading(None), 0);
    assert_eq!(epoch_to_iso(secs_of_reading(Some(1_000_000_000_500_000_000))), "2001-09-09T01:46:40");
}

#[test]
fn timestamps_have_fixed_width() {
    assert_eq!(epoch_to_iso(253_402_300_799), "9999-12-31T23:59:59");
    assert_eq!(epoch_to_iso(253_402_300_799).len(), 19);
    assert_eq!(epoch_to_iso(0).len(), 19);
}

#[test]
fn later_times_read_later() {
    let stamps = [-86_400i64, 0, 951_782_399, 951_782_400, 951_868_800, 1_757_462_400];
    for w in stamps.windows(2) {
        assert!(epoch_to_iso(w[0]) < epoch_to_iso(w[1]));
    }
}

#[test]
fn broadcast_targets_keep_first_seen_order() {
    assert_eq!(
        broadcast_targets(&vec![0x0a00_00ff, 0xc0a8_01ff, 0x0a00_00ff, 0xffff_ffff, 0xac10_ffff]),
        vec![0xffff_ffff, 0x0a00_00ff, 0xc0a8_01ff, 0xac10_ffff]
    );
    assert!(wanted_interface(0xc0a8_0105));
    assert!(!wanted_interface(0x7f00_0001));
    assert!(!wanted_interface(0x7fff_ffff));
    assert!(!wanted_interface(0));
    assert!(wanted_interface(0x8000_0001));
}
