//! SAN formatting and UCI parsing.

use p2pawn::game::board::{BoardStatus, Mv, PieceKind, Position};
use p2pawn::game::san::{move_to_uci, san, square_is_light, uci_to_move};

fn sq(x: &str) -> u8 {
    let b = x.as_bytes();
    (b[1] - b'1') * 8 + (b[0] - b'a')
}

fn board(fen: &str) -> Position {
    Position::from_fen(fen).unwrap()
}

fn san_of_first(b: &Position, pred: impl Fn(Mv) -> bool) -> String {
    let mv = b.legal_moves().into_iter().find(|m| pred(*m)).unwrap();
    san(b, mv)
}

#[test]
fn basic_san() {
    let b = Position::start();
    let e2e4 = Mv { from: sq("e2"), to: sq("e4"), promo: None };
    assert_eq!(san(&b, e2e4), "e4");
}

#[test]
fn uci_roundtrip() {
    let b = Position::start();
    let mv = uci_to_move(&b, "e2e4").unwrap();
    assert_eq!(move_to_uci(mv), "e2e4");
    assert!(uci_to_move(&b, "e2e5").is_none()); // illegal
    assert!(uci_to_move(&b, "xx").is_none());
}

#[test]
fn disambiguation_two_knights() {
    // Knights on b1 and f3 can both reach d2 (d2 pawn removed).
    let b = board("rnbqkbnr/pppppppp/8/8/8/5N2/PPP1PPPP/RNBQKB1R w KQkq - 0 1");
    let s = san_of_first(&b, |m| m.from == sq("b1") && m.to == sq("d2"));
    assert_eq!(s, "Nbd2");
    let s = san_of_first(&b, |m| m.from == sq("f3") && m.to == sq("d2"));
    assert_eq!(s, "Nfd2");
}

#[test]
fn mate_suffix() {
    // Fool's mate final position.
    let b = board("rnb1kbnr/pppp1ppp/8/4p3/6Pq/5P2/PPPPP2P/RNBQKBNR w KQkq - 0 3");
    assert_eq!(b.status(), BoardStatus::Checkmate);
    // The mating move Qh4# was played on the previous board:
    let prev = board("rnbqkbnr/pppp1ppp/8/4p3/6P1/5P2/PPPPP2P/RNBQKBNR b KQkq g3 0 2");
    let s = san_of_first(&prev, |m| m.to == sq("h4"));
    assert_eq!(s, "Qh4#");
}

#[test]
fn castling_san() {
    let b = board("r3k2r/pppppppp/8/8/8/8/PPPPPPPP/R3K2R w KQkq - 0 1");
    // Filter by king's source so the rook move (Rg1) doesn't match first.
    let s = san_of_first(&b, |m| m.from == sq("e1") && m.to == sq("g1"));
    assert_eq!(s, "O-O");
    let s = san_of_first(&b, |m| m.from == sq("e1") && m.to == sq("c1"));
    assert_eq!(s, "O-O-O");
}

#[test]
fn promotion_san() {
    let b = board("8/P6k/8/8/8/8/8/K7 w - - 0 1");
    let s = san_of_first(&b, |m| m.to == sq("a8") && m.promo == Some(PieceKind::Queen));
    assert_eq!(s, "a8=Q");
}

#[test]
fn en_passant_san() {
    let b = board("rnbqkbnr/ppp1p1pp/8/3pPp2/8/8/PPPP1PPP/RNBQKBNR w KQkq f6 0 3");
    let s = san_of_first(&b, |m| m.to == sq("f6"));
    assert_eq!(s, "exf6");
}

#[test]
fn check_suffix_and_rank_disambiguation() {
    // Rooks on a1 and a3 can both reach a2: the rank tells them apart.
    let b = board("4k3/8/8/8/8/R7/8/R3K3 w - - 0 1");
    let s = san_of_first(&b, |m| m.from == sq("a1") && m.to == sq("a2"));
    assert_eq!(s, "R1a2");
    // A rook move giving check.
    let s = san_of_first(&b, |m| m.from == sq("a3") && m.to == sq("a8"));
    assert_eq!(s, "Ra8+");
}

#[test]
fn full_square_disambiguation() {
    // Queens on a1, a3 and c1 all reach b2: a1 shares a file with a3 and a rank with c1.
    let b = board("4k3/8/8/8/8/Q7/8/Q1Q1K3 w - - 0 1");
    let s = san_of_first(&b, |m| m.from == sq("a1") && m.to == sq("b2"));
    assert_eq!(s, "Qa1b2");
}

#[test]
fn uci_promotion_letters() {
    let b = board("8/P6k/8/8/8/8/8/K7 w - - 0 1");
    let mv = uci_to_move(&b, "a7a8n").unwrap();
    assert_eq!(mv.promo, Some(PieceKind::Knight));
    assert_eq!(move_to_uci(mv), "a7a8n");
    // A promotion without its piece letter is not a legal move.
    assert!(uci_to_move(&b, "a7a8").is_none());
    // Non-ASCII text is never a move.
    assert!(uci_to_move(&Position::start(), "e2e4é").is_none());
}

#[test]
fn uci_roundtrip_all_opening_moves() {
    let b = Position::start();
    for m in b.legal_moves() {
        assert_eq!(uci_to_move(&b, &move_to_uci(m)), Some(m));
    }
}

#[test]
fn light_and_dark_squares() {
    assert!(!square_is_light(sq("a1")));
    assert!(square_is_light(sq("h1")));
    assert!(square_is_light(sq("a8")));
}

#[test]
fn fen_without_a_king_is_refused() {
    assert!(Position::from_fen("8/8/8/8/8/8/8/8 w - - 0 1").is_none());
    assert!(Position::from_fen("8/8/8/8/8/8/8/4K3 b - - 0 1").is_none());
    assert!(Position::from_fen("4k3/8/8/8/8/8/8/8 w - - 0 1").is_none());
    let p = Position::from_fen("4k3/8/8/8/8/8/8/4K3 w - - 0 1").unwrap();
    assert_eq!(p.fen(), "4k3/8/8/8/8/8/8/4K3 w - - 0 1");
}
