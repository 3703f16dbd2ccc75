//! Player configuration: name, board style, default time control.
//!
//! Reading and writing the TOML file is done by the application; this
//! module holds the settings and the rules for changing them.
use vstd::prelude::*;
use crate::game::session::TimeControl;
use crate::text::{chars_of, string_of};

verus! {

/// Piece rendering style.
#[derive(Clone, Copy, PartialEq, Eq, Debug, Structural)]
pub enum PieceStyle {
    /// Chess symbols (♞).
    Unicode,
    /// Letters: K Q R B N P / k q r b n p.
    Ascii,
}

impl PieceStyle {
    pub open spec fn label_spec(self) -> Seq<char> {
        match self {
            PieceStyle::Unicode => "Unicode (♞)"@,
            PieceStyle::Ascii => "ASCII (N)"@,
        }
    }

    pub fn label(self) -> (r: &'static str)
        ensures
            r@ == self.label_spec(),
    {
        match self {
            PieceStyle::Unicode => "Unicode (♞)",
            PieceStyle::Ascii => "ASCII (N)",
        }
    }
}

/// Which legal-move hints are shown for the selected piece.
#[derive(Clone, Copy, PartialEq, Eq, Debug, Structural)]
pub enum HintStyle {
    /// All legal destinations.
    All,
    /// Only the cursor target when it is a legal move.
    Cursor,
    /// No hints.
    Off,
}

/// The player's settings.
pub struct Config {
    pub player_name: String,
    pub piece_style: PieceStyle,
    pub show_coordinates: bool,
    pub show_hints: HintStyle,
    /// Default time control: base seconds and increment seconds.
    pub tc_base_secs: u64,
    pub tc_inc_secs: u64,
    /// Flip the board so black is at the bottom.
    pub flip_board: bool,
}

/// The characters of `s` that are not control characters (`char::is_control`).
pub open spec fn is_control_spec(c: char) -> bool {
    ('\0' <= c <= '\x1f') || ('\x7f' <= c <= '\u{9f}')
}

/// Whether `c` is a control character (`char::is_control`: the C0 and C1 ranges).
pub fn is_control(c: char) -> (r: bool)
    ensures
        r == is_control_spec(c),
{
    ('\0' <= c && c <= '\x1f') || ('\x7f' <= c && c <= '\u{9f}')
}

/// At most the first `n` characters.
pub open spec fn take_chars(s: Seq<char>, n: nat) -> Seq<char> {
    if s.len() <= n {
        s
    } else {
        s.take(n as int)
    }
}

/// The non-control characters of `s`, in order.
pub open spec fn drop_controls(s: Seq<char>) -> Seq<char>
    decreases s.len(),
{
    if s.len() == 0 {
        seq![]
    } else {
        drop_controls(s.drop_last()) + if is_control_spec(s.last()) {
            seq![]
        } else {
            seq![s.last()]
        }
    }
}

/// A player name taken from the environment: its first 20 characters, or
/// "Player" when there is none.
pub open spec fn default_name_spec(env: Option<Seq<char>>) -> Seq<char> {
    match env {
        Some(s) => take_chars(s, 20),
        None => "Player"@,
    }
}

fn take_first(v: &Vec<char>, n: usize) -> (r: Vec<char>)
    ensures
        r@ == take_chars(v@, n as nat),
{
    let k = if v.len() <= n {
        v.len()
    } else {
        n
    };
    let r = crate::text::slice(v, 0, k);
    assert(v@.subrange(0, v@.len() as int) =~= v@);
    r
}

/// The player name to use when the configuration has none: the first 20
/// characters of the user name found in the environment, else "Player".
pub fn default_player_name(env: Option<&str>) -> (r: String)
    ensures
        r@ == default_name_spec(match env {
            Some(s) => Some(s@),
            None => None,
        }),
{
    match env {
        Some(s) => string_of(&take_first(&chars_of(s), 20)),
        None => string_of(&chars_of("Player")),
    }
}

/// A player name given on the command line or in the environment: control
/// characters dropped, at most 20 characters kept; `None` when nothing is left.
pub fn sanitize_name(raw: &str) -> (r: Option<String>)
    ensures
        ({
            let cleaned = take_chars(drop_controls(raw@), 20);
            if cleaned.len() == 0 {
                r is None
            } else {
                r matches Some(s) && s@ == cleaned
            }
        }),
{
    let v = chars_of(raw);
    let mut kept: Vec<char> = Vec::new();
    let mut i: usize = 0;
    assert(v@.take(0) =~= Seq::<char>::empty());
    while i < v.len()
        invariant
            i <= v@.len(),
            kept@ == drop_controls(v@.take(i as int)),
        decreases v@.len() - i,
    {
        let c = v[i];
        assert(v@.take(i + 1).drop_last() =~= v@.take(i as int));
        assert(v@.take(i + 1).last() == c);
        if !is_control(c) {
            kept.push(c);
        }
        i = i + 1;
        assert(kept@ =~= drop_controls(v@.take(i as int)));
    }
    assert(v@.take(v@.len() as int) =~= v@);
    let name = take_first(&kept, 20);
    if name.len() == 0 {
        None
    } else {
        Some(string_of(&name))
    }
}

pub open spec fn next_piece_style(s: PieceStyle) -> PieceStyle {
    match s {
        PieceStyle::Unicode => PieceStyle::Ascii,
        PieceStyle::Ascii => PieceStyle::Unicode,
    }
}

pub open spec fn next_hint_style(h: HintStyle) -> HintStyle {
    match h {
        HintStyle::All => HintStyle::Cursor,
        HintStyle::Cursor => HintStyle::Off,
        HintStyle::Off => HintStyle::All,
    }
}

/// The preset after the one matching (`base`, `inc`), cycling; the second
/// preset when none matches.
pub open spec fn next_preset(base: u64, inc: u64) -> TimeControl {
    let p = TimeControl::presets_spec();
    let idx = if exists|i: int| 0 <= i < 4 && p[i].base_secs == base && p[i].inc_secs == inc {
        choose|i: int| 0 <= i < 4 && p[i].base_secs == base && p[i].inc_secs == inc
    } else {
        0
    };
    p[(idx + 1) % 4]
}

impl Config {
    /// The settings of a first run, for a player called `name`: Unicode
    /// pieces, coordinates and all hints shown, 5+0, board not flipped.
    pub fn with_name(name: String) -> (c: Config)
        ensures
            c.player_name == name,
            c.piece_style == PieceStyle::Unicode,
            c.show_coordinates,
            c.show_hints == HintStyle::All,
            c.tc_base_secs == 300,
            c.tc_inc_secs == 0,
            !c.flip_board,
    {
        let tc = TimeControl::base_5_0();
        Config {
            player_name: name,
            piece_style: PieceStyle::Unicode,
            show_coordinates: true,
            show_hints: HintStyle::All,
            tc_base_secs: tc.base_secs,
            tc_inc_secs: tc.inc_secs,
            flip_board: false,
        }
    }

    pub fn default_tc(&self) -> (r: TimeControl)
        ensures
            r == (TimeControl { base_secs: self.tc_base_secs, inc_secs: self.tc_inc_secs }),
    {
        TimeControl::new(self.tc_base_secs, self.tc_inc_secs)
    }

    /// The configuration with the other piece style, all else unchanged.
    pub open spec fn with_piece_style_toggled(c: Config) -> Config {
        Config { piece_style: next_piece_style(c.piece_style), ..c }
    }

    /// The configuration with the next hint style, all else unchanged.
    pub open spec fn with_hints_cycled(c: Config) -> Config {
        Config { show_hints: next_hint_style(c.show_hints), ..c }
    }

    pub fn toggle_piece_style(&mut self)
        ensures
            *final(self) == Config::with_piece_style_toggled(*old(self)),
            final(self).piece_style == next_piece_style(old(self).piece_style),
            final(self).player_name == old(self).player_name,
            final(self).show_coordinates == old(self).show_coordinates,
            final(self).show_hints == old(self).show_hints,
            final(self).tc_base_secs == old(self).tc_base_secs,
            final(self).tc_inc_secs == old(self).tc_inc_secs,
            final(self).flip_board == old(self).flip_board,
    {
        self.piece_style = match self.piece_style {
            PieceStyle::Unicode => PieceStyle::Ascii,
            PieceStyle::Ascii => PieceStyle::Unicode,
        };
    }

    pub fn toggle_hints(&mut self)
        ensures
            *final(self) == Config::with_hints_cycled(*old(self)),
            final(self).show_hints == next_hint_style(old(self).show_hints),
            final(self).player_name == old(self).player_name,
            final(self).piece_style == old(self).piece_style,
            final(self).show_coordinates == old(self).show_coordinates,
            final(self).tc_base_secs == old(self).tc_base_secs,
            final(self).tc_inc_secs == old(self).tc_inc_secs,
            final(self).flip_board == old(self).flip_board,
    {
        self.show_hints = match self.show_hints {
            HintStyle::All => HintStyle::Cursor,
            HintStyle::Cursor => HintStyle::Off,
            HintStyle::Off => HintStyle::All,
        };
    }

    /// Move the default time control to the next preset (settings screen).
    pub fn cycle_time_control(&mut self)
        ensures
            final(self).tc_base_secs == next_preset(old(self).tc_base_secs, old(self).tc_inc_secs).base_secs,
            final(self).tc_inc_secs == next_preset(old(self).tc_base_secs, old(self).tc_inc_secs).inc_secs,
            final(self).player_name == old(self).player_name,
            final(self).piece_style == old(self).piece_style,
            final(self).show_coordinates == old(self).show_coordinates,
            final(self).show_hints == old(self).show_hints,
            final(self).flip_board == old(self).flip_board,
    {
        let presets = TimeControl::presets();
        let mut idx: usize = 0;
        let mut i: usize = 0;
        let mut found = false;
        while i < 4
            invariant
                i <= 4,
                presets@ == TimeControl::presets_spec(),
                !found ==> idx == 0 && forall|k: int| 0 <= k < i ==> !(presets@[k].base_secs
                    == self.tc_base_secs && presets@[k].inc_secs == self.tc_inc_secs),
                found ==> idx < 4 && presets@[idx as int].base_secs == self.tc_base_secs
                    && presets@[idx as int].inc_secs == self.tc_inc_secs && forall|k: int|
                    0 <= k < idx ==> !(presets@[k].base_secs == self.tc_base_secs
                        && presets@[k].inc_secs == self.tc_inc_secs),
            decreases 4 - i,
        {
            if !found && presets[i].base_secs == self.tc_base_secs && presets[i].inc_secs
                == self.tc_inc_secs {
                idx = i;
                found = true;
            }
            i = i + 1;
        }
        proof {
            let p = TimeControl::presets_spec();
            if found {
                assert(exists|j: int| 0 <= j < 4 && p[j].base_secs == self.tc_base_secs && p[j].inc_secs == self.tc_inc_secs) by {
                    assert(p[idx as int].base_secs == self.tc_base_secs);
                }
                let c = choose|j: int| 0 <= j < 4 && p[j].base_secs == self.tc_base_secs && p[j].inc_secs == self.tc_inc_secs;
                // presets are pairwise distinct, so the match is unique
                assert(c == idx);
            }
        }
        let next = presets[(idx + 1) % 4];
        self.tc_base_secs = next.base_secs;
        self.tc_inc_secs = next.inc_secs;
    }
}

/// Toggling the piece style twice restores the configuration.
pub proof fn law_piece_style_toggle_involution(c: Config)
    ensures
        next_piece_style(next_piece_style(c.piece_style)) == c.piece_style,
        Config::with_piece_style_toggled(Config::with_piece_style_toggled(c)) == c,
{
}

/// Cycling the hint style (All, Cursor, Off) three times restores the
/// configuration.
pub proof fn law_hint_cycle_period_three(c: Config)
    ensures
        next_hint_style(next_hint_style(next_hint_style(c.show_hints))) == c.show_hints,
        Config::with_hints_cycled(Config::with_hints_cycled(Config::with_hints_cycled(c))) == c,
{
}

} // verus!
