//! Shared game session state, used by both local and LAN games.
//!
//! All chess rules (legality, check, mate, stalemate, repetition, fifty
//! moves) come from the `chess` crate. This layer adds the clock, player
//! names, draw offers and end-of-game bookkeeping.
use vstd::prelude::*;
use crate::game::board::{
    BoardStatus, Mv, PieceKind, Position, Side, can_declare_draw, is_legal, spec_after, spec_piece_on,
    spec_can_declare_draw, spec_checker_count, spec_legal_moves, spec_side_to_move, start_fen, status_spec,
};
use crate::game::clock::{Clock, MAX_NANOS, NANOS_PER_SEC};
use crate::game::san::{move_to_uci, san, san_spec, uci_move_spec, uci_spec, uci_to_move};
use crate::text::{
    chars_of, decimal, push_all, string_of,
};

verus! {

/// Base time and increment, in whole seconds.
#[derive(Clone, Copy, PartialEq, Eq, Debug, Structural)]
pub struct TimeControl {
    pub base_secs: u64,
    pub inc_secs: u64,
}

impl TimeControl {
    pub fn new(base_secs: u64, inc_secs: u64) -> (r: TimeControl)
        ensures
            r.base_secs == base_secs,
            r.inc_secs == inc_secs,
    {
        TimeControl { base_secs, inc_secs }
    }

    /// 1 minute, no increment.
    pub fn base_1_0() -> (r: TimeControl)
        ensures
            r == (TimeControl { base_secs: 60, inc_secs: 0 }),
    {
        TimeControl { base_secs: 60, inc_secs: 0 }
    }

    /// 3 minutes, 2 seconds increment.
    pub fn base_3_2() -> (r: TimeControl)
        ensures
            r == (TimeControl { base_secs: 180, inc_secs: 2 }),
    {
        TimeControl { base_secs: 180, inc_secs: 2 }
    }

    /// 5 minutes, no increment.
    pub fn base_5_0() -> (r: TimeControl)
        ensures
            r == (TimeControl { base_secs: 300, inc_secs: 0 }),
    {
        TimeControl { base_secs: 300, inc_secs: 0 }
    }

    /// 10 minutes, no increment.
    pub fn base_10_0() -> (r: TimeControl)
        ensures
            r == (TimeControl { base_secs: 600, inc_secs: 0 }),
    {
        TimeControl { base_secs: 600, inc_secs: 0 }
    }

    pub open spec fn presets_spec() -> Seq<TimeControl> {
        seq![
            TimeControl { base_secs: 60, inc_secs: 0 },
            TimeControl { base_secs: 180, inc_secs: 2 },
            TimeControl { base_secs: 300, inc_secs: 0 },
            TimeControl { base_secs: 600, inc_secs: 0 },
        ]
    }

    /// The presets offered in the UI: 1+0, 3+2, 5+0, 10+0.
    pub fn presets() -> (r: Vec<TimeControl>)
        ensures
            r@ == Self::presets_spec(),
    {
        let mut v: Vec<TimeControl> = Vec::new();
        v.push(TimeControl::base_1_0());
        v.push(TimeControl::base_3_2());
        v.push(TimeControl::base_5_0());
        v.push(TimeControl::base_10_0());
        assert(v@ =~= Self::presets_spec());
        v
    }

    pub open spec fn base_nanos(self) -> u128 {
        (self.base_secs * NANOS_PER_SEC) as u128
    }

    pub open spec fn inc_nanos(self) -> u128 {
        (self.inc_secs * NANOS_PER_SEC) as u128
    }

    pub open spec fn label_spec(self) -> Seq<char> {
        decimal(self.base_secs as nat / 60) + seq!['+'] + decimal(self.inc_secs as nat)
    }

    /// "5+3" style label: the base time in whole minutes, then the increment
    /// in seconds ("1+0", "3+2", "5+0", "10+0" for the presets).
    pub fn label(&self) -> (r: String)
        ensures
            r@ == self.label_spec(),
    {
        let b = self.base_secs as u128 * NANOS_PER_SEC;
        let i = self.inc_secs as u128 * NANOS_PER_SEC;
        assert(b / NANOS_PER_SEC == self.base_secs) by (nonlinear_arith)
            requires
                b == self.base_secs as u128 * NANOS_PER_SEC,
                NANOS_PER_SEC == 1_000_000_000u128,
        ;
        assert(i / NANOS_PER_SEC == self.inc_secs) by (nonlinear_arith)
            requires
                i == self.inc_secs as u128 * NANOS_PER_SEC,
                NANOS_PER_SEC == 1_000_000_000u128,
        ;
        Clock::label(b, i)
    }
}

/// How a game ended.
#[derive(Clone, Copy, PartialEq, Eq, Debug, Structural)]
pub enum Outcome {
    Win(Side),
    Draw,
}

impl Outcome {
    pub open spec fn result_spec(self) -> Seq<char> {
        match self {
            Outcome::Win(Side::White) => "1-0"@,
            Outcome::Win(Side::Black) => "0-1"@,
            Outcome::Draw => "1/2-1/2"@,
        }
    }

    /// The PGN result text: "1-0", "0-1" or "1/2-1/2".
    pub fn result_string(&self) -> (r: &'static str)
        ensures
            r@ == self.result_spec(),
    {
        match self {
            Outcome::Win(Side::White) => "1-0",
            Outcome::Win(Side::Black) => "0-1",
            Outcome::Draw => "1/2-1/2",
        }
    }
}

/// How the game ended, with the reason shown in the UI and the PGN
/// `Termination` header value.
pub struct GameEnd {
    pub outcome: Outcome,
    pub reason: String,
    pub termination: String,
}

impl GameEnd {
    pub open spec fn view_tuple(&self) -> (Outcome, Seq<char>, Seq<char>) {
        (self.outcome, self.reason@, self.termination@)
    }
}

/// The end of a game, as outcome, reason and termination texts.
pub open spec fn end_view(e: Option<GameEnd>) -> Option<(Outcome, Seq<char>, Seq<char>)> {
    match e {
        Some(g) => Some(g.view_tuple()),
        None => None,
    }
}

/// One applied move, in both notations.
pub struct MoveRecord {
    pub uci: String,
    pub san: String,
}

impl Clone for MoveRecord {
    fn clone(&self) -> (r: MoveRecord)
        ensures
            r.uci@ == self.uci@,
            r.san@ == self.san@,
    {
        MoveRecord { uci: self.uci.clone(), san: self.san.clone() }
    }
}

/// The position reached from the start by a sequence of moves.
pub open spec fn line_end(h: Seq<Mv>) -> Seq<char>
    decreases h.len(),
{
    if h.len() == 0 {
        start_fen()
    } else {
        spec_after(line_end(h.drop_last()), h.last())
    }
}

/// Every move of the sequence is legal where it is played.
pub open spec fn legal_line(h: Seq<Mv>) -> bool {
    forall|i: int|
        0 <= i < h.len() ==> (#[trigger] h[i]).on_board() && is_legal(line_end(h.take(i)), h[i])
}

/// Each record holds the UCI and the SAN of the corresponding move.
pub open spec fn records_match(recs: Seq<MoveRecord>, h: Seq<Mv>) -> bool {
    &&& recs.len() == h.len()
    &&& forall|i: int|
        0 <= i < h.len() ==> (#[trigger] recs[i]).uci@ == uci_spec(h[i]) && recs[i].san@
            == san_spec(line_end(h.take(i)), h[i])
}

/// Whether `m`, played in `fen`, is a pawn move or a capture (which starts
/// the fifty-move count afresh).
pub open spec fn resets_fifty(fen: Seq<char>, m: Mv) -> bool {
    spec_piece_on(fen, m.from) == Some(PieceKind::Pawn) || spec_piece_on(fen, m.to) is Some
}

/// Plies played since the last pawn move or capture of the moves `h`
/// from the start position.
pub open spec fn plies_since_progress(h: Seq<Mv>) -> nat
    decreases h.len(),
{
    if h.len() == 0 {
        0
    } else if resets_fifty(line_end(h.drop_last()), h.last()) {
        0
    } else {
        plies_since_progress(h.drop_last()) + 1
    }
}

proof fn lemma_plies_bound(h: Seq<Mv>)
    ensures
        plies_since_progress(h) <= h.len(),
    decreases h.len(),
{
    if h.len() > 0 {
        lemma_plies_bound(h.drop_last());
    }
}

/// The natural end reached in a position after the moves `h`: checkmate,
/// stalemate, or a claimable draw (the fifty-move rule when 100 plies or
/// more have passed since the last pawn move or capture, repetition otherwise).
pub open spec fn natural_end(fen: Seq<char>, h: Seq<Mv>) -> Option<(Outcome, Seq<char>, Seq<char>)> {
    match status_spec(fen) {
        BoardStatus::Checkmate => Some(
            (Outcome::Win(spec_side_to_move(fen).opp()), "checkmate"@, "Normal"@),
        ),
        BoardStatus::Stalemate => Some((Outcome::Draw, "stalemate"@, "Normal"@)),
        BoardStatus::Ongoing => if spec_can_declare_draw(h) {
            if plies_since_progress(h) >= 100 {
                Some((Outcome::Draw, "fifty-move rule"@, "Fifty-move rule"@))
            } else {
                Some((Outcome::Draw, "threefold repetition"@, "Repetition"@))
            }
        } else {
            None
        },
    }
}

proof fn lemma_line_push(h: Seq<Mv>, m: Mv)
    requires
        legal_line(h),
        is_legal(line_end(h), m),
        m.on_board(),
    ensures
        legal_line(h.push(m)),
        line_end(h.push(m)) == spec_after(line_end(h), m),
{
    let h2 = h.push(m);
    assert(h2.drop_last() =~= h);
    assert forall|i: int| 0 <= i < h2.len() implies (#[trigger] h2[i]).on_board() && is_legal(
        line_end(h2.take(i)),
        h2[i],
    ) by {
        if i < h.len() {
            assert(h2.take(i) =~= h.take(i));
            assert(h2[i] == h[i]);
        } else {
            assert(h2.take(i) =~= h);
        }
    }
}

proof fn lemma_records_push(recs: Seq<MoveRecord>, h: Seq<Mv>, r: MoveRecord, m: Mv)
    requires
        records_match(recs, h),
        r.uci@ == uci_spec(m),
        r.san@ == san_spec(line_end(h), m),
    ensures
        records_match(recs.push(r), h.push(m)),
{
    let h2 = h.push(m);
    let r2 = recs.push(r);
    assert forall|i: int| 0 <= i < h2.len() implies (#[trigger] r2[i]).uci@ == uci_spec(h2[i])
        && r2[i].san@ == san_spec(line_end(h2.take(i)), h2[i]) by {
        if i < h.len() {
            assert(h2.take(i) =~= h.take(i));
        } else {
            assert(h2.take(i) =~= h);
        }
    }
}

/// The PGN `Termination` values a game can end with.
pub open spec fn known_termination(t: Seq<char>) -> bool {
    ||| t == "Normal"@
    ||| t == "Agreement"@
    ||| t == "Time forfeit"@
    ||| t == "Abandoned"@
    ||| t == "Fifty-move rule"@
    ||| t == "Repetition"@
}

/// A game in progress or finished: position, moves, clock, players and
/// the way it ended.
pub struct Session {
    /// The moves played from the start position.
    pub history: Vec<Mv>,
    /// The current position (cached; always the end of `history`).
    pub board: Position,
    /// Plies since the last pawn move or capture.
    pub quiet_plies: usize,
    pub clock: Clock,
    pub white_name: String,
    pub black_name: String,
    /// Our color in a LAN game; `None` for a local two-player game.
    pub my_color: Option<Side>,
    pub moves: Vec<MoveRecord>,
    pub end: Option<GameEnd>,
    /// The color that currently has a draw offer on the table.
    pub draw_offered_by: Option<Side>,
    pub tc: TimeControl,
}

impl Session {
    /// The moves played so far.
    pub open spec fn hist(&self) -> Seq<Mv> {
        self.history@
    }

    /// The FEN of the current position.
    pub open spec fn pos(&self) -> Seq<char> {
        self.board@
    }

    /// The session's invariant: the position is the one the moves reach,
    /// every move was legal, the records hold their notation, the clock is
    /// frozen exactly when the game is over, and no draw offer outlives the game.
    pub open spec fn wf(&self) -> bool {
        &&& self.pos() == line_end(self.hist())
        &&& self.quiet_plies == plies_since_progress(self.hist())
        &&& legal_line(self.hist())
        &&& records_match(self.moves@, self.hist())
        &&& self.clock.wf()
        &&& (self.end is Some <==> self.clock.is_frozen())
        &&& (self.end is Some ==> self.draw_offered_by is None)
        &&& (self.end matches Some(e) ==> known_termination(e.termination@))
    }

    /// The side to move may be credited its increment without leaving the
    /// range of `std::time::Duration`.
    pub open spec fn can_credit(&self) -> bool {
        self.clock.rem(spec_side_to_move(self.pos())) + self.clock.inc() <= MAX_NANOS
    }

    pub fn new(white_name: String, black_name: String, my_color: Option<Side>, tc: TimeControl) -> (s: Session)
        ensures
            s.wf(),
            s.hist() == Seq::<Mv>::empty(),
            s.pos() == start_fen(),
            s.white_name == white_name,
            s.black_name == black_name,
            s.my_color == my_color,
            s.moves@.len() == 0,
            s.end is None,
            s.draw_offered_by is None,
            s.tc == tc,
            s.clock.rem(Side::White) == tc.base_nanos(),
            s.clock.rem(Side::Black) == tc.base_nanos(),
            s.clock.inc() == tc.inc_nanos(),
            s.clock.run() is None,
    {
        let base = tc.base_secs as u128 * NANOS_PER_SEC;
        let inc = tc.inc_secs as u128 * NANOS_PER_SEC;
        assert(base <= MAX_NANOS) by (nonlinear_arith)
            requires
                base == tc.base_secs as u128 * NANOS_PER_SEC,
                tc.base_secs <= u64::MAX,
                NANOS_PER_SEC == 1_000_000_000u128,
                MAX_NANOS == 18_446_744_073_709_551_615_999_999_999u128,
        ;
        assert(inc <= MAX_NANOS) by (nonlinear_arith)
            requires
                inc == tc.inc_secs as u128 * NANOS_PER_SEC,
                tc.inc_secs <= u64::MAX,
                NANOS_PER_SEC == 1_000_000_000u128,
                MAX_NANOS == 18_446_744_073_709_551_615_999_999_999u128,
        ;
        let s = Session {
            history: Vec::new(),
            board: Position::start(),
            quiet_plies: 0,
            clock: Clock::new(base, inc),
            white_name,
            black_name,
            my_color,
            moves: Vec::new(),
            end: None,
            draw_offered_by: None,
            tc,
        };
        assert(s.history@ =~= Seq::<Mv>::empty());
        s
    }

    /// The current position.
    pub fn board(&self) -> (r: &Position)
        ensures
            r@ == self.pos(),
    {
        &self.board
    }

    pub fn side_to_move(&self) -> (r: Side)
        ensures
            r == spec_side_to_move(self.pos()),
    {
        self.board.side_to_move()
    }

    pub open spec fn my_turn_spec(&self) -> bool {
        match self.my_color {
            Some(c) => spec_side_to_move(self.pos()) == c,
            None => true,
        }
    }

    /// Our turn in a LAN game; always true in a local game.
    pub fn is_my_turn(&self) -> (r: bool)
        ensures
            r == self.my_turn_spec(),
    {
        match self.my_color {
            Some(c) => self.side_to_move() == c,
            None => true,
        }
    }

    pub fn is_over(&self) -> (r: bool)
        ensures
            r == self.end is Some,
    {
        self.end.is_some()
    }

    pub open spec fn name_spec(&self, color: Side) -> Seq<char> {
        match color {
            Side::White => self.white_name@,
            Side::Black => self.black_name@,
        }
    }

    pub fn name_of(&self, color: Side) -> (r: &str)
        ensures
            r@ == self.name_spec(color),
    {
        match color {
            Side::White => self.white_name.as_str(),
            Side::Black => self.black_name.as_str(),
        }
    }

    /// Whether the side to move could be credited its increment (see `can_credit`).
    pub fn can_credit_increment(&self) -> (r: bool)
        ensures
            r == self.can_credit(),
    {
        let side = self.side_to_move();
        let rem = self.clock.remaining(side);
        rem <= MAX_NANOS && self.clock.increment() <= MAX_NANOS - rem
    }

    /// Legal destinations for a piece on `sq`, ascending and without repeats.
    pub fn legal_targets(&self, sq: u8) -> (r: Vec<u8>)
        requires
            sq < 64,
        ensures
            forall|i: int, j: int| 0 <= i < j < r@.len() ==> r@[i] < r@[j],
            forall|x: u8|
                r@.contains(x) <==> exists|k: int|
                    0 <= k < spec_legal_moves(self.pos()).len() && (#[trigger] spec_legal_moves(
                        self.pos(),
                    )[k]).from == sq && spec_legal_moves(self.pos())[k].to == x,
    {
        let moves = self.board.legal_moves();
        let mut dests: Vec<u8> = Vec::new();
        let mut i: usize = 0;
        while i < moves.len()
            invariant
                i <= moves@.len(),
                moves@ == spec_legal_moves(self.pos()),
                forall|a: int, b: int| 0 <= a < b < dests@.len() ==> dests@[a] < dests@[b],
                forall|x: u8|
                    dests@.contains(x) <==> exists|k: int|
                        0 <= k < i && (#[trigger] moves@[k]).from == sq && moves@[k].to == x,
            decreases moves@.len() - i,
        {
            let m = moves[i];
            if m.from == sq {
                insert_sorted(&mut dests, m.to);
            }
            proof {
                assert forall|x: u8| dests@.contains(x) <==> exists|k: int|
                    0 <= k < i + 1 && (#[trigger] moves@[k]).from == sq && moves@[k].to == x by {
                    if exists|k: int| 0 <= k < i + 1 && (#[trigger] moves@[k]).from == sq
                        && moves@[k].to == x {
                        let k = choose|k: int|
                            0 <= k < i + 1 && (#[trigger] moves@[k]).from == sq && moves@[k].to == x;
                        if k < i {
                        } else {
                            assert(moves@[k] == m);
                        }
                    }
                }
            }
            i = i + 1;
        }
        dests
    }

    /// True if moving from `from` to `to` requires a promotion choice.
    pub fn needs_promotion(&self, from: u8, to: u8) -> (r: bool)
        ensures
            r == exists|k: int|
                0 <= k < spec_legal_moves(self.pos()).len() && (#[trigger] spec_legal_moves(
                    self.pos(),
                )[k]).from == from && spec_legal_moves(self.pos())[k].to == to
                    && spec_legal_moves(self.pos())[k].promo is Some,
    {
        let moves = self.board.legal_moves();
        let mut i: usize = 0;
        while i < moves.len()
            invariant
                i <= moves@.len(),
                moves@ == spec_legal_moves(self.pos()),
                forall|k: int|
                    0 <= k < i ==> !((#[trigger] moves@[k]).from == from && moves@[k].to == to
                        && moves@[k].promo is Some),
            decreases moves@.len() - i,
        {
            let m = moves[i];
            if m.from == from && m.to == to && m.promo.is_some() {
                assert(moves@[i as int] == m);
                return true;
            }
            i = i + 1;
        }
        false
    }

    /// The outcome of applying a legal move `m` to the session `old` as
    /// `new`, with `rec` the record returned.
    pub open spec fn moved(old: Session, new: Session, m: Mv, rec: MoveRecord) -> bool {
        let mover = spec_side_to_move(old.pos());
        &&& new.wf()
        &&& new.hist() == old.hist().push(m)
        &&& new.pos() == spec_after(old.pos(), m)
        &&& spec_side_to_move(new.pos()) == mover.opp()
        &&& rec.uci@ == uci_spec(m)
        &&& rec.san@ == san_spec(old.pos(), m)
        &&& new.moves@.len() == old.moves@.len() + 1
        &&& new.moves@.last().uci@ == rec.uci@
        &&& new.moves@.last().san@ == rec.san@
        &&& new.draw_offered_by is None
        &&& end_view(new.end) == natural_end(new.pos(), new.hist())
        &&& new.white_name == old.white_name
        &&& new.black_name == old.black_name
        &&& new.my_color == old.my_color
        &&& new.tc == old.tc
        &&& new.clock.inc() == old.clock.inc()
        &&& new.clock.rem(mover) == old.clock.rem(mover) + old.clock.inc()
        &&& (new.end is None ==> {
            &&& new.clock.run() == Some(mover.opp())
            &&& new.clock.rem(mover.opp()) == old.clock.rem(mover.opp())
        })
        &&& (new.end is Some ==> new.clock.rem(mover.opp()) <= old.clock.rem(mover.opp()))
    }

    /// `new` and the result `r` follow from `old` when a local move from
    /// `from` to `to` is tried: a legal move in a running game is applied,
    /// anything else changes nothing.
    pub open spec fn tried(
        old: Session,
        new: Session,
        from: u8,
        to: u8,
        promo: Option<PieceKind>,
        r: Option<MoveRecord>,
    ) -> bool {
        let m = Mv { from, to, promo };
        if old.end is Some || !is_legal(old.pos(), m) {
            r is None && new == old
        } else {
            r matches Some(rec) && Session::moved(old, new, m, rec)
        }
    }

    /// `new` follows from `old` when `color` offers a draw: the offer is put
    /// on the table unless the game is over, which leaves it as it is.
    pub open spec fn offered(old: Session, new: Session, color: Side) -> bool {
        &&& old.end is Some ==> new == old
        &&& old.end is None ==> new == (Session { draw_offered_by: Some(color), ..old })
    }

    /// `new` follows from `old` when the game is ended this way: a running
    /// game finishes, a finished one is left as it is.
    pub open spec fn ended_by(
        old: Session,
        new: Session,
        outcome: Outcome,
        reason: Seq<char>,
        termination: Seq<char>,
    ) -> bool {
        &&& old.end is Some ==> new == old
        &&& old.end is None ==> Session::finished(old, new, outcome, reason, termination)
    }

    /// Validate and apply a local move. Returns the record if the game is
    /// still running and the move is legal; otherwise nothing changes.
    pub fn try_move(&mut self, from: u8, to: u8, promo: Option<PieceKind>) -> (r: Option<MoveRecord>)
        requires
            old(self).wf(),
            old(self).end is None && is_legal(old(self).pos(), Mv { from, to, promo })
                ==> old(self).can_credit(),
            from < 64,
            to < 64,
        ensures
            final(self).wf(),
            Session::tried(*old(self), *final(self), from, to, promo, r),
    {
        if self.is_over() {
            return None;
        }
        let m = Mv { from, to, promo };
        if !crate::game::san::move_gen_contains(&self.board, m) {
            return None;
        }
        Some(self.apply_move(m))
    }

    /// `new` and the result `r` follow from `old` when the opponent's move
    /// text `uci` arrives with their clock reading `clock_ms`: a legal move
    /// in a running game is applied and the mover's clock set to the
    /// reading; anything else changes nothing.
    pub open spec fn remote_applied(
        old: Session,
        new: Session,
        uci: Seq<char>,
        clock_ms: u64,
        r: Option<MoveRecord>,
    ) -> bool {
        let parsed = uci_move_spec(old.pos(), vstd::utf8::encode_utf8(uci));
        if old.end is Some || parsed is None {
            r is None && new == old
        } else {
            let mover = spec_side_to_move(old.pos());
            let m = parsed->0;
            &&& r matches Some(rec)
            &&& new.hist() == old.hist().push(m)
            &&& new.pos() == spec_after(old.pos(), m)
            &&& spec_side_to_move(new.pos()) == mover.opp()
            &&& rec.uci@ == uci_spec(m)
            &&& rec.san@ == san_spec(old.pos(), m)
            &&& new.moves@.len() == old.moves@.len() + 1
            &&& new.draw_offered_by is None
            &&& end_view(new.end) == natural_end(new.pos(), new.hist())
            &&& new.white_name == old.white_name
            &&& new.black_name == old.black_name
            &&& new.my_color == old.my_color
            &&& new.tc == old.tc
            &&& new.clock.rem(mover) == clock_ms as u128 * 1_000_000
            &&& new.clock.inc() == old.clock.inc()
        }
    }

    /// Apply a move from a UCI text (remote opponent). `clock_ms` is the
    /// mover's remaining time as measured on their machine, which we adopt.
    pub fn apply_remote_uci(&mut self, uci: &str, clock_ms: u64) -> (r: Option<MoveRecord>)
        requires
            old(self).wf(),
            old(self).end is None && uci_move_spec(old(self).pos(), vstd::utf8::encode_utf8(uci@))
                is Some ==> old(self).can_credit(),
        ensures
            final(self).wf(),
            Session::remote_applied(*old(self), *final(self), uci@, clock_ms, r),
    {
        if self.is_over() {
            return None;
        }
        let m = match uci_to_move(&self.board, uci) {
            Some(m) => m,
            None => return None,
        };
        let mover = self.board.side_to_move();
        let record = self.apply_move(m);
        self.clock.set_remaining(mover, clock_ms as u128 * 1_000_000);
        Some(record)
    }

    fn apply_move(&mut self, m: Mv) -> (rec: MoveRecord)
        requires
            old(self).wf(),
            old(self).can_credit(),
            old(self).end is None,
            is_legal(old(self).pos(), m),
            m.on_board(),
        ensures
            Session::moved(*old(self), *final(self), m, rec),
    {
        let ghost old_self = *self;
        let san_text = san(&self.board, m);
        let uci_text = move_to_uci(m);
        let mover = self.board.side_to_move();
        let resets = match self.board.piece_on(m.from) {
            Some(PieceKind::Pawn) => true,
            _ => self.board.piece_on(m.to).is_some(),
        };
        proof {
            lemma_plies_bound(self.history@);
            lemma_line_push(self.history@, m);
            lemma_records_push(
                self.moves@,
                self.history@,
                MoveRecord { uci: uci_text, san: san_text },
                m,
            );
        }
        self.history.push(m);
        proof {
            assert(self.history@.drop_last() =~= old_self.history@);
        }
        let played = self.history.len();
        assert(self.quiet_plies < played);
        self.quiet_plies = if resets {
            0
        } else {
            self.quiet_plies + 1
        };
        self.board = self.board.after(m);
        self.draw_offered_by = None;
        self.clock.switch(mover);
        let record = MoveRecord { uci: uci_text, san: san_text };
        let copy = record.clone();
        self.moves.push(record);
        assert(self.moves@ =~= old_self.moves@.push(self.moves@.last()));
        proof {
            lemma_records_push(old_self.moves@, old_self.history@, self.moves@.last(), m);
        }
        self.detect_move_end();
        copy
    }

    /// After a move: end the game on checkmate, stalemate, or a claimable
    /// draw. All detection is the `chess` crate's.
    fn detect_move_end(&mut self)
        requires
            old(self).end is None,
            !old(self).clock.is_frozen(),
            old(self).clock.wf(),
            old(self).draw_offered_by is None,
            old(self).quiet_plies == plies_since_progress(old(self).hist()),
            forall|i: int| 0 <= i < old(self).hist().len() ==> (#[trigger] old(self).hist()[i]).on_board(),
        ensures
            end_view(final(self).end) == natural_end(old(self).pos(), old(self).hist()),
            final(self).quiet_plies == old(self).quiet_plies,
            final(self).hist() == old(self).hist(),
            final(self).pos() == old(self).pos(),
            final(self).moves == old(self).moves,
            final(self).draw_offered_by is None,
            final(self).white_name == old(self).white_name,
            final(self).black_name == old(self).black_name,
            final(self).my_color == old(self).my_color,
            final(self).tc == old(self).tc,
            final(self).clock.wf(),
            final(self).clock.inc() == old(self).clock.inc(),
            final(self).end is Some <==> final(self).clock.is_frozen(),
            final(self).end is None ==> final(self).clock == old(self).clock,
            forall|s: Side|
                #![trigger final(self).clock.rem(s)]
                final(self).clock.rem(s) <= old(self).clock.rem(s),
            forall|s: Side|
                #![trigger final(self).clock.rem(s)]
                (old(self).clock.is_frozen() || old(self).clock.run() != Some(s))
                    ==> final(self).clock.rem(s) == old(self).clock.rem(s),
    {
        match self.board.status() {
            BoardStatus::Checkmate => {
                let winner = self.board.side_to_move().other();
                self.finish(Outcome::Win(winner), "checkmate", "Normal");
            },
            BoardStatus::Stalemate => {
                self.finish(Outcome::Draw, "stalemate", "Normal");
            },
            BoardStatus::Ongoing => {
                if can_declare_draw(&self.history) {
                    if self.quiet_plies >= 100 {
                        self.finish(Outcome::Draw, "fifty-move rule", "Fifty-move rule");
                    } else {
                        self.finish(Outcome::Draw, "threefold repetition", "Repetition");
                    }
                }
            },
        }
    }

    /// Put a draw offer by `color` on the table, unless the game is over.
    pub fn offer_draw(&mut self, color: Side)
        requires
            old(self).wf(),
        ensures
            final(self).wf(),
            Session::offered(*old(self), *final(self), color),
    {
        if self.end.is_none() {
            self.draw_offered_by = Some(color);
        }
    }

    /// Agree to a draw, unless the game is over.
    pub fn accept_draw(&mut self)
        requires
            old(self).wf(),
        ensures
            final(self).wf(),
            Session::ended_by(
                *old(self),
                *final(self),
                Outcome::Draw,
                "draw by agreement"@,
                "Agreement"@,
            ),
    {
        if self.end.is_none() {
            self.finish(Outcome::Draw, "draw by agreement", "Agreement");
        }
    }

    /// Withdraw any draw offer.
    pub fn decline_draw(&mut self)
        requires
            old(self).wf(),
        ensures
            final(self).wf(),
            *final(self) == (Session { draw_offered_by: None, ..*old(self) }),
    {
        self.draw_offered_by = None;
    }

    /// `color` resigns: the other side wins, unless the game is already over.
    pub fn resign(&mut self, color: Side)
        requires
            old(self).wf(),
        ensures
            final(self).wf(),
            Session::ended_by(
                *old(self),
                *final(self),
                Outcome::Win(color.opp()),
                old(self).name_spec(color) + " resigned"@,
                "Normal"@,
            ),
    {
        if self.end.is_none() {
            let mut reason = chars_of(self.name_of(color));
            push_all(&mut reason, &chars_of(" resigned"));
            let reason = string_of(&reason);
            self.finish_with(Outcome::Win(color.other()), reason, "Normal");
        }
    }

    /// `loser`'s clock ran out: the other side wins, unless the game is already over.
    pub fn timeout(&mut self, loser: Side)
        requires
            old(self).wf(),
        ensures
            final(self).wf(),
            Session::ended_by(
                *old(self),
                *final(self),
                Outcome::Win(loser.opp()),
                old(self).name_spec(loser) + " ran out of time"@,
                "Time forfeit"@,
            ),
    {
        if self.end.is_none() {
            let mut reason = chars_of(self.name_of(loser));
            push_all(&mut reason, &chars_of(" ran out of time"));
            let reason = string_of(&reason);
            self.finish_with(Outcome::Win(loser.other()), reason, "Time forfeit");
        }
    }

    /// The other side vanished from the network: `winner` wins, unless the game is already over.
    pub fn abandoned(&mut self, winner: Side)
        requires
            old(self).wf(),
        ensures
            final(self).wf(),
            Session::ended_by(
                *old(self),
                *final(self),
                Outcome::Win(winner),
                "opponent disconnected"@,
                "Abandoned"@,
            ),
    {
        if self.end.is_none() {
            self.finish(Outcome::Win(winner), "opponent disconnected", "Abandoned");
        }
    }

    /// `new` is `old` ended with this outcome, reason and termination; the
    /// board, moves, names and settings are kept and the clock is frozen.
    pub open spec fn finished(
        old: Session,
        new: Session,
        outcome: Outcome,
        reason: Seq<char>,
        termination: Seq<char>,
    ) -> bool {
        &&& new.wf()
        &&& end_view(new.end) == Some((outcome, reason, termination))
        &&& new.hist() == old.hist()
        &&& new.pos() == old.pos()
        &&& new.moves == old.moves
        &&& new.draw_offered_by is None
        &&& new.white_name == old.white_name
        &&& new.black_name == old.black_name
        &&& new.my_color == old.my_color
        &&& new.tc == old.tc
        &&& new.clock.is_frozen()
        &&& new.clock.inc() == old.clock.inc()
        &&& forall|s: Side| #![trigger new.clock.rem(s)] new.clock.rem(s) <= old.clock.rem(s)
    }

    fn finish(&mut self, outcome: Outcome, reason: &str, termination: &str)
        requires
            old(self).clock.wf(),
            known_termination(termination@),
        ensures
            end_view(final(self).end) == Some((outcome, reason@, termination@)),
            final(self).quiet_plies == old(self).quiet_plies,
            final(self).hist() == old(self).hist(),
            final(self).pos() == old(self).pos(),
            final(self).moves == old(self).moves,
            final(self).draw_offered_by is None,
            final(self).white_name == old(self).white_name,
            final(self).black_name == old(self).black_name,
            final(self).my_color == old(self).my_color,
            final(self).tc == old(self).tc,
            final(self).clock.wf(),
            final(self).clock.is_frozen(),
            final(self).clock.inc() == old(self).clock.inc(),
            forall|s: Side|
                #![trigger final(self).clock.rem(s)]
                final(self).clock.rem(s) <= old(self).clock.rem(s),
            forall|s: Side|
                #![trigger final(self).clock.rem(s)]
                (old(self).clock.is_frozen() || old(self).clock.run() != Some(s))
                    ==> final(self).clock.rem(s) == old(self).clock.rem(s),
    {
        let reason = string_of(&chars_of(reason));
        self.finish_with(outcome, reason, termination);
    }

    fn finish_with(&mut self, outcome: Outcome, reason: String, termination: &str)
        requires
            old(self).clock.wf(),
            known_termination(termination@),
        ensures
            end_view(final(self).end) == Some((outcome, reason@, termination@)),
            final(self).quiet_plies == old(self).quiet_plies,
            final(self).hist() == old(self).hist(),
            final(self).pos() == old(self).pos(),
            final(self).moves == old(self).moves,
            final(self).draw_offered_by is None,
            final(self).white_name == old(self).white_name,
            final(self).black_name == old(self).black_name,
            final(self).my_color == old(self).my_color,
            final(self).tc == old(self).tc,
            final(self).clock.wf(),
            final(self).clock.is_frozen(),
            final(self).clock.inc() == old(self).clock.inc(),
            forall|s: Side|
                #![trigger final(self).clock.rem(s)]
                final(self).clock.rem(s) <= old(self).clock.rem(s),
            forall|s: Side|
                #![trigger final(self).clock.rem(s)]
                (old(self).clock.is_frozen() || old(self).clock.run() != Some(s))
                    ==> final(self).clock.rem(s) == old(self).clock.rem(s),
    {
        self.clock.freeze();
        self.draw_offered_by = None;
        let termination = string_of(&chars_of(termination));
        self.end = Some(GameEnd { outcome, reason, termination });
    }

    pub open spec fn result_spec(&self) -> Seq<char> {
        match self.end {
            Some(e) => e.outcome.result_spec(),
            None => "*"@,
        }
    }

    /// Outcome text for the PGN `Result` header ("*" while the game runs).
    pub fn result_string(&self) -> (r: &'static str)
        ensures
            r@ == self.result_spec(),
    {
        match &self.end {
            Some(e) => e.outcome.result_string(),
            None => "*",
        }
    }
}

/// The result texts name the outcome: "1-0" exactly when white wins, "0-1"
/// exactly when black wins, "1/2-1/2" exactly for a draw.
pub proof fn law_result_texts(o: Outcome)
    ensures
        o.result_spec() == "1-0"@ <==> o == Outcome::Win(Side::White),
        o.result_spec() == "0-1"@ <==> o == Outcome::Win(Side::Black),
        o.result_spec() == "1/2-1/2"@ <==> o == Outcome::Draw,
{
    reveal_strlit("1-0");
    reveal_strlit("0-1");
    reveal_strlit("1/2-1/2");
    assert("1-0"@ != "0-1"@) by {
        assert("1-0"@[0] != "0-1"@[0]);
    }
    assert("1-0"@ != "1/2-1/2"@) by {
        assert("1-0"@.len() != "1/2-1/2"@.len());
    }
    assert("0-1"@ != "1/2-1/2"@) by {
        assert("0-1"@.len() != "1/2-1/2"@.len());
    }
}

/// A time control's label reads as its base time in whole minutes, a '+',
/// and its increment in seconds, each written in decimal digits.
pub proof fn law_label_reads_back(tc: TimeControl)
    ensures
        exists|p: Seq<char>, q: Seq<char>|
            #![trigger crate::game::pgn::decimal_value(p), crate::game::pgn::decimal_value(q)]
            tc.label_spec() == p + seq!['+'] + q && p.len() > 0 && q.len() > 0 && !p.contains('+')
                && crate::game::pgn::decimal_value(p) == tc.base_secs / 60
                && crate::game::pgn::decimal_value(q) == tc.inc_secs,
{
    let p = decimal(tc.base_secs as nat / 60);
    let q = decimal(tc.inc_secs as nat);
    crate::game::pgn::lemma_decimal_reads_back(tc.base_secs as nat / 60);
    crate::game::pgn::lemma_decimal_reads_back(tc.inc_secs as nat);
    assert(!p.contains('+')) by {
        if p.contains('+') {
            let k = choose|k: int| 0 <= k < p.len() && p[k] == '+';
            assert('0' <= p[k] <= '9');
        }
    }
    assert(tc.label_spec() == p + seq!['+'] + q);
}

/// How a move ends a game: when it leaves the opponent no legal move, the
/// game is over at once; if the opponent is not in check (stalemate) it is
/// a draw, "1/2-1/2"; if the opponent is in check (checkmate) the player who
/// moved wins, "1-0" for white and "0-1" for black. A move that leaves the
/// opponent a legal move and no draw to claim lets the game go on.
pub proof fn law_move_endings(old: Session, new: Session, m: Mv, rec: MoveRecord)
    requires
        Session::moved(old, new, m, rec),
    ensures
        spec_legal_moves(new.pos()).len() == 0 && spec_checker_count(new.pos()) == 0 ==> {
            &&& new.end matches Some(e) && e.outcome == Outcome::Draw
            &&& new.result_spec() == "1/2-1/2"@
        },
        spec_legal_moves(new.pos()).len() == 0 && spec_checker_count(new.pos()) > 0 ==> {
            &&& new.end matches Some(e) && e.outcome == Outcome::Win(spec_side_to_move(old.pos()))
            &&& new.result_spec() == (if spec_side_to_move(old.pos()) == Side::White {
                "1-0"@
            } else {
                "0-1"@
            })
        },
        spec_legal_moves(new.pos()).len() > 0 && !spec_can_declare_draw(new.hist()) ==> new.end
            is None,
{
}

/// Once a game is over it stays as it ended: trying a move, receiving a
/// remote move, offering or declining a draw, accepting one, resigning,
/// a timeout or an abandonment all leave the session as it is.
pub proof fn law_finished_game_is_final(s: Session, t: Session)
    requires
        s.wf(),
        s.end is Some,
    ensures
        forall|from: u8, to: u8, promo: Option<PieceKind>, r: Option<MoveRecord>|
            #[trigger] Session::tried(s, t, from, to, promo, r) ==> t == s && r is None,
        forall|uci: Seq<char>, ms: u64, r: Option<MoveRecord>|
            #[trigger] Session::remote_applied(s, t, uci, ms, r) ==> t == s && r is None,
        forall|c: Side| #[trigger] Session::offered(s, t, c) ==> t == s,
        forall|o: Outcome, reason: Seq<char>, term: Seq<char>|
            #[trigger] Session::ended_by(s, t, o, reason, term) ==> t == s,
        t == (Session { draw_offered_by: None, ..s }) ==> t == s,
{
}

/// Insert `x` into an ascending vector without repeats, keeping it so.
fn insert_sorted(v: &mut Vec<u8>, x: u8)
    requires
        forall|a: int, b: int| 0 <= a < b < old(v)@.len() ==> old(v)@[a] < old(v)@[b],
    ensures
        forall|a: int, b: int| 0 <= a < b < final(v)@.len() ==> final(v)@[a] < final(v)@[b],
        forall|y: u8| final(v)@.contains(y) <==> (old(v)@.contains(y) || y == x),
{
    let mut i: usize = 0;
    while i < v.len() && v[i] < x
        invariant
            i <= v@.len(),
            v@ == old(v)@,
            forall|k: int| 0 <= k < i ==> v@[k] < x,
        decreases v@.len() - i,
    {
        i = i + 1;
    }
    if i < v.len() && v[i] == x {
        assert(v@[i as int] == x);
        assert(v@.contains(x));
        return;
    }
    let ghost before = v@;
    assert(before == old(v)@);
    v.insert(i, x);
    assert(v@ =~= before.subrange(0, i as int).push(x) + before.subrange(i as int, before.len() as int));
    assert forall|y: u8| v@.contains(y) <==> (before.contains(y) || y == x) by {
        if before.contains(y) {
            let k = choose|k: int| 0 <= k < before.len() && before[k] == y;
            if k < i {
                assert(v@[k] == y);
            } else {
                assert(v@[k + 1] == y);
            }
        }
        if v@.contains(y) {
            let k = choose|k: int| 0 <= k < v@.len() && v@[k] == y;
            if k < i {
                assert(before[k] == y);
            } else if k > i {
                assert(before[k - 1] == y);
            }
        }
        if y == x {
            assert(v@[i as int] == x);
        }
    }
    assert(forall|y: u8| v@.contains(y) <==> (old(v)@.contains(y) || y == x));
}

} // verus!
