//! A two-sided chess clock: base time plus an increment per move.
//!
//! Times are kept in nanoseconds.
use vstd::prelude::*;
use crate::game::board::Side;
use crate::text::{push_decimal, string_of};

verus! {

#[verifier::external_type_specification]
#[verifier::external_body]
pub struct ExInstant(std::time::Instant);

/// The largest time a `std::time::Duration` holds, in nanoseconds.
pub const MAX_NANOS: u128 = 18_446_744_073_709_551_615_999_999_999u128;

/// Nanoseconds per second.
pub const NANOS_PER_SEC: u128 = 1_000_000_000u128;

/// Now, on the monotonic clock (`std::time::Instant::now`).
#[verifier::external_body]
pub(crate) fn monotonic_now() -> (r: std::time::Instant) {
    std::time::Instant::now()
}

/// Nanoseconds from `earlier` to `later`, zero if `later` is not after it
/// (`std::time::Instant::saturating_duration_since`).
#[verifier::external_body]
pub(crate) fn nanos_between(earlier: &std::time::Instant, later: &std::time::Instant) -> (r: u128)
    ensures
        r <= MAX_NANOS,
{
    later.saturating_duration_since(*earlier).as_nanos()
}

/// Two-sided clock. `running` is the side whose time is currently ticking.
pub struct Clock {
    white: u128,
    black: u128,
    increment: u128,
    running: Option<Side>,
    last_tick: std::time::Instant,
    /// Frozen once the game is over.
    frozen: bool,
}

impl Clock {
    /// Remaining time of a side, in nanoseconds.
    pub closed spec fn rem(&self, side: Side) -> u128 {
        match side {
            Side::White => self.white,
            Side::Black => self.black,
        }
    }

    pub closed spec fn inc(&self) -> u128 {
        self.increment
    }

    pub closed spec fn run(&self) -> Option<Side> {
        self.running
    }

    pub closed spec fn is_frozen(&self) -> bool {
        self.frozen
    }

    /// Every time fits in a `Duration`.
    pub closed spec fn wf(&self) -> bool {
        self.white <= MAX_NANOS && self.black <= MAX_NANOS && self.increment <= MAX_NANOS
    }

    /// The side flagged: the running side when its time is exhausted, unless frozen.
    pub open spec fn flagged_spec(&self) -> Option<Side> {
        if self.is_frozen() {
            None
        } else {
            match self.run() {
                Some(c) => if self.rem(c) == 0 {
                    Some(c)
                } else {
                    None
                },
                None => None,
            }
        }
    }

    /// A clock with `base` on both sides and `increment` per move, not running.
    pub fn new(base: u128, increment: u128) -> (c: Clock)
        requires
            base <= MAX_NANOS,
            increment <= MAX_NANOS,
        ensures
            c.wf(),
            c.rem(Side::White) == base,
            c.rem(Side::Black) == base,
            c.inc() == increment,
            c.run() is None,
            !c.is_frozen(),
    {
        Clock {
            white: base,
            black: base,
            increment,
            running: None,
            last_tick: monotonic_now(),
            frozen: false,
        }
    }

    /// Charge `elapsed` nanoseconds to the running side (saturating at zero),
    /// unless the clock is frozen.
    pub fn tick_by(&mut self, elapsed: u128)
        ensures
            final(self).run() == old(self).run(),
            final(self).is_frozen() == old(self).is_frozen(),
            final(self).inc() == old(self).inc(),
            old(self).wf() ==> final(self).wf(),
            forall|s: Side|
                #![trigger final(self).rem(s)]
                final(self).rem(s) == if !old(self).is_frozen() && old(self).run() == Some(s) {
                    if old(self).rem(s) >= elapsed {
                        (old(self).rem(s) - elapsed) as u128
                    } else {
                        0u128
                    }
                } else {
                    old(self).rem(s)
                },
    {
        if self.frozen {
            return;
        }
        match self.running {
            Some(Side::White) => {
                self.white = if self.white >= elapsed {
                    self.white - elapsed
                } else {
                    0
                };
            },
            Some(Side::Black) => {
                self.black = if self.black >= elapsed {
                    self.black - elapsed
                } else {
                    0
                };
            },
            None => {},
        }
    }

    /// `new` is `old` after some time was charged: only the running side
    /// of a clock that is not frozen loses time, never below zero.
    pub open spec fn ticked(old: Clock, new: Clock) -> bool {
        &&& new.run() == old.run()
        &&& new.is_frozen() == old.is_frozen()
        &&& new.inc() == old.inc()
        &&& (old.wf() ==> new.wf())
        &&& forall|s: Side| #![trigger new.rem(s)] new.rem(s) <= old.rem(s)
        &&& forall|s: Side|
            #![trigger new.rem(s)]
            (old.is_frozen() || old.run() != Some(s)) ==> new.rem(s) == old.rem(s)
    }

    /// Advance the running clock by the real time elapsed since the last tick.
    /// How much is charged depends on the time; what holds whatever it is:
    /// only the running side loses time, never below zero.
    pub fn tick(&mut self)
        ensures
            Clock::ticked(*old(self), *final(self)),
    {
        let now = monotonic_now();
        let elapsed = nanos_between(&self.last_tick, &now);
        self.last_tick = now;
        self.tick_by(elapsed);
    }

    /// Stop the mover's clock, credit the increment, start the opponent's.
    /// A frozen clock is left as it is.
    pub fn switch(&mut self, mover: Side)
        requires
            old(self).wf(),
            old(self).rem(mover) + old(self).inc() <= MAX_NANOS,
        ensures
            final(self).wf(),
            final(self).inc() == old(self).inc(),
            final(self).is_frozen() == old(self).is_frozen(),
            old(self).is_frozen() ==> final(self).run() == old(self).run() && forall|s: Side|
                #![trigger final(self).rem(s)]
                final(self).rem(s) == old(self).rem(s),
            !old(self).is_frozen() ==> {
                &&& final(self).run() == Some(mover.opp())
                &&& final(self).rem(mover) == old(self).rem(mover) + old(self).inc()
                &&& final(self).rem(mover.opp()) == old(self).rem(mover.opp())
            },
    {
        if self.frozen {
            return;
        }
        match mover {
            Side::White => self.white = self.white + self.increment,
            Side::Black => self.black = self.black + self.increment,
        }
        self.running = Some(mover.other());
        self.last_tick = monotonic_now();
    }

    /// Start the given side's clock (used when the game begins), unless frozen.
    pub fn start(&mut self, color: Side)
        ensures
            final(self).inc() == old(self).inc(),
            final(self).is_frozen() == old(self).is_frozen(),
            old(self).wf() ==> final(self).wf(),
            forall|s: Side| #![trigger final(self).rem(s)] final(self).rem(s) == old(self).rem(s),
            final(self).run() == if old(self).is_frozen() {
                old(self).run()
            } else {
                Some(color)
            },
    {
        if !self.frozen {
            self.running = Some(color);
            self.last_tick = monotonic_now();
        }
    }

    /// Overwrite one side's remaining time (clock sync from a network move).
    pub fn set_remaining(&mut self, color: Side, dur: u128)
        ensures
            final(self).rem(color) == dur,
            final(self).rem(color.opp()) == old(self).rem(color.opp()),
            final(self).inc() == old(self).inc(),
            final(self).run() == old(self).run(),
            final(self).is_frozen() == old(self).is_frozen(),
            old(self).wf() && dur <= MAX_NANOS ==> final(self).wf(),
    {
        match color {
            Side::White => self.white = dur,
            Side::Black => self.black = dur,
        }
    }

    /// The increment credited per move, in nanoseconds.
    pub fn increment(&self) -> (r: u128)
        ensures
            r == self.inc(),
    {
        self.increment
    }

    /// Remaining time of `color`, in nanoseconds.
    pub fn remaining(&self, color: Side) -> (r: u128)
        ensures
            r == self.rem(color),
    {
        match color {
            Side::White => self.white,
            Side::Black => self.black,
        }
    }

    /// The side whose clock is currently ticking.
    pub fn running(&self) -> (r: Option<Side>)
        ensures
            r == self.run(),
    {
        self.running
    }

    /// The side whose clock has hit zero while running, if any (never once frozen).
    pub fn flagged(&self) -> (r: Option<Side>)
        ensures
            r == self.flagged_spec(),
    {
        if self.frozen {
            return None;
        }
        match self.running {
            Some(Side::White) => if self.white == 0 {
                Some(Side::White)
            } else {
                None
            },
            Some(Side::Black) => if self.black == 0 {
                Some(Side::Black)
            } else {
                None
            },
            None => None,
        }
    }

    /// Whether the clock is frozen.
    pub fn frozen(&self) -> (r: bool)
        ensures
            r == self.is_frozen(),
    {
        self.frozen
    }

    /// Charge the last stretch of time, then stop for good.
    pub fn freeze(&mut self)
        ensures
            final(self).is_frozen(),
            final(self).run() is None,
            final(self).inc() == old(self).inc(),
            old(self).wf() ==> final(self).wf(),
            forall|s: Side|
                #![trigger final(self).rem(s)]
                final(self).rem(s) <= old(self).rem(s),
            forall|s: Side|
                #![trigger final(self).rem(s)]
                (old(self).is_frozen() || old(self).run() != Some(s)) ==> final(self).rem(s)
                    == old(self).rem(s),
    {
        self.tick();
        let ghost mid = *self;
        self.frozen = true;
        self.running = None;
        assert forall|s: Side| #[trigger] self.rem(s) == mid.rem(s) by {}
    }

    /// "5+3" style label: the base time in whole minutes, then the
    /// increment in whole seconds.
    pub fn label(base: u128, inc: u128) -> (r: String)
        requires
            base <= MAX_NANOS,
            inc <= MAX_NANOS,
        ensures
            r@ == crate::text::decimal((base / NANOS_PER_SEC / 60) as nat) + seq!['+']
                + crate::text::decimal((inc / NANOS_PER_SEC) as nat),
    {
        let mut out: Vec<char> = Vec::new();
        push_decimal(&mut out, (base / NANOS_PER_SEC / 60) as u64);
        out.push('+');
        push_decimal(&mut out, (inc / NANOS_PER_SEC) as u64);
        string_of(&out)
    }
}

/// Once frozen, a clock stays as it is: however much time passes (any tick),
/// neither side's remaining time changes and no flag ever falls.
pub proof fn law_frozen_clock_never_flags(c: Clock, later: Clock)
    requires
        c.is_frozen(),
        Clock::ticked(c, later),
    ensures
        c.flagged_spec() is None,
        later.is_frozen(),
        later.flagged_spec() is None,
        forall|s: Side| #![trigger later.rem(s)] later.rem(s) == c.rem(s),
{
}

} // verus!
