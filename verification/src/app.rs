//! Application state machine: screens, dialogs, the game lifecycle and the
//! reactions to LAN messages.
//!
//! Every handler takes the state and one event (a key, a message, a
//! connection event) and returns the next state together with the list of
//! outside actions to perform (`Effect`): sending on a connection, closing
//! it, saving files, dialing a peer. The terminal, sockets and files are
//! driven by the application around this library.
use vstd::prelude::*;
use crate::config::{Config, HintStyle};
use crate::game::board::{PieceKind, Side, spec_checker_count, spec_king_square, spec_legal_moves, spec_side_to_move};
use crate::game::clock::{monotonic_now, nanos_between, NANOS_PER_SEC};
use crate::game::history::{History, replay_of_pgn};
use crate::game::pgn::{Replay, scan_lines, tokens_spec};
use crate::game::san::{file_of, rank_of, uci_spec, is_file_byte, is_rank_byte, square_of_bytes};
use crate::game::session::{MoveRecord, Session, TimeControl};
use crate::net::proto::{GameMsg, PeerStatus};
use crate::text::{chars_of, lines_spec, push_all, string_of};
use crate::util::{iso_spec, now_iso, system_time_nanos};

verus! {

/// The screen shown under any dialog.
#[derive(Clone, Copy, PartialEq, Eq, Debug, Structural)]
pub enum Screen {
    Menu,
    Lobby,
    LocalSetup,
    Playing,
    History,
    Replay,
    Settings,
    Help,
}

/// Color choice on the local setup screen.
#[derive(Clone, Copy, PartialEq, Eq, Debug, Structural)]
pub enum ColorChoice {
    White,
    Black,
    Random,
}

impl ColorChoice {
    pub open spec fn label_spec(self) -> Seq<char> {
        match self {
            ColorChoice::White => "White"@,
            ColorChoice::Black => "Black"@,
            ColorChoice::Random => "Random"@,
        }
    }

    pub fn label(self) -> (r: &'static str)
        ensures
            r@ == self.label_spec(),
    {
        match self {
            ColorChoice::White => "White",
            ColorChoice::Black => "Black",
            ColorChoice::Random => "Random",
        }
    }

    /// The choices in the order they are cycled through.
    pub open spec fn all_spec() -> Seq<ColorChoice> {
        seq![ColorChoice::White, ColorChoice::Black, ColorChoice::Random]
    }

    pub fn all() -> (r: Vec<ColorChoice>)
        ensures
            r@ == Self::all_spec(),
    {
        let r = vec![ColorChoice::White, ColorChoice::Black, ColorChoice::Random];
        assert(r@ =~= Self::all_spec());
        r
    }
}

/// Dialog drawn on top of the current screen.
pub enum Modal {
    /// Promotion piece picker.
    Promotion { from: u8, to: u8, sel: usize },
    /// In-game menu (Esc): resume, offer draw, resign, leave.
    GameMenu { sel: usize },
    /// Game over summary.
    GameOver,
    /// The opponent offers a draw.
    DrawIncoming,
    /// Someone invited us; their connection is held until we answer.
    IncomingInvite { sel: usize },
    /// We invited someone and wait for the answer.
    InviteWait { peer: String },
    /// The invite was declined or the connection failed.
    Info { title: String, body: String },
    /// Leave the game (counts as resignation while it runs).
    LeaveConfirm { sel: usize },
    /// Quit the program.
    QuitConfirm { sel: usize },
    /// Delete a history entry.
    DeleteConfirm { sel: usize },
}

/// The main menu entries, in order.
pub open spec fn menu_items_spec() -> Seq<Seq<char>> {
    seq!["Local Game"@, "LAN Game"@, "Game History"@, "Settings"@, "Help"@, "Quit"@]
}

pub fn menu_item(i: usize) -> (r: &'static str)
    requires
        i < 6,
    ensures
        r@ == menu_items_spec()[i as int],
{
    match i {
        0 => "Local Game",
        1 => "LAN Game",
        2 => "Game History",
        3 => "Settings",
        4 => "Help",
        _ => "Quit",
    }
}

/// An outside action requested by a handler, performed by the application
/// in the order given.
pub enum Effect {
    /// Send on the game connection.
    Send(GameMsg),
    /// Send on the pending connection (an invite not yet answered).
    SendPending(GameMsg),
    /// Send on the connection that has just arrived.
    SendIncoming(GameMsg),
    /// Shut down and drop the game connection.
    CloseConn,
    /// Drop the game connection.
    DropConn,
    /// Shut down and drop the pending connection.
    ClosePending,
    /// Drop the pending connection.
    DropPending,
    /// Shut down and drop the connection that has just arrived.
    CloseIncoming,
    /// Keep the connection that has just arrived as the pending one and
    /// start reading from it.
    AdoptIncoming,
    /// The pending connection becomes the game connection.
    PromotePending,
    /// Advertise this status in discovery beacons.
    SetStatus(PeerStatus),
    /// Send a beacon now.
    RefreshPeers,
    /// Dial the lobby peer at this index; report with `App::on_dialed`.
    Dial(usize),
    /// Store the finished game; report with `App::note_saved`.
    SaveGame,
    /// Write the configuration file.
    SaveConfig,
    /// Remove the history entry at this index; report with `App::after_delete`.
    DeleteHistory(usize),
    /// Read the history entry at this index; report with `App::open_replay`.
    LoadReplay(usize),
}

/// A key as the terminal reports it.
#[derive(Clone, Copy, PartialEq, Eq, Debug, Structural)]
pub enum KeyCode {
    Up,
    Down,
    Left,
    Right,
    Enter,
    Esc,
    Tab,
    Backspace,
    Home,
    End,
    Char(char),
    Other,
}

/// A key event: the key, whether Ctrl was held, and whether it is a press
/// (releases and repeats are ignored).
#[derive(Clone, Copy, PartialEq, Eq, Debug, Structural)]
pub struct Key {
    pub code: KeyCode,
    pub ctrl: bool,
    pub press: bool,
}

impl Key {
    /// A plain key press.
    pub fn press(code: KeyCode) -> (k: Key)
        ensures
            k == (Key { code, ctrl: false, press: true }),
    {
        Key { code, ctrl: false, press: true }
    }
}

/// A peer as listed in the lobby.
pub struct PeerInfo {
    pub name: String,
    pub status: PeerStatus,
}

/// The whole state of the program.
pub struct App {
    pub config: Config,
    pub history: Option<History>,
    pub screen: Screen,
    pub quit: bool,
    pub menu_sel: usize,
    pub lobby_sel: usize,
    pub lobby_status: String,
    pub history_sel: usize,
    pub settings_sel: usize,
    pub settings_editing_name: bool,
    pub setup_sel: usize,
    pub setup_color: ColorChoice,
    pub setup_tc: TimeControl,
    pub session: Option<Session>,
    /// A game connection is held (dialed by us or promoted from pending).
    pub conn_open: bool,
    pub cursor: Option<u8>,
    pub selected: Option<u8>,
    pub view_flip: bool,
    pub started_iso: String,
    pub game_saved: bool,
    /// An incoming connection is held before its invite is answered.
    pub pending_open: bool,
    /// Brief status message and when it was set.
    pub toast: Option<(String, std::time::Instant)>,
    pub replay: Option<Replay>,
    pub invite_peer: Option<String>,
    pub invite_tc: TimeControl,
    pub modal: Option<Modal>,
}

/// The square index of a file (0 = a) and a rank (0 = first).
pub open spec fn square_at(file: int, rank: int) -> u8 {
    (rank * 8 + file) as u8
}

/// Selections of dialogs stay within their choices.
pub open spec fn modal_ok(m: Option<Modal>) -> bool {
    match m {
        Some(Modal::Promotion { from, to, sel }) => from < 64 && to < 64 && sel < 4,
        Some(Modal::GameMenu { sel }) => sel < 4,
        Some(Modal::IncomingInvite { sel }) => sel < 2,
        Some(Modal::LeaveConfirm { sel }) => sel < 2,
        Some(Modal::QuitConfirm { sel }) => sel < 2,
        Some(Modal::DeleteConfirm { sel }) => sel < 2,
        _ => true,
    }
}

impl App {
    /// The state's invariant: a running session and a replay keep their own
    /// invariants, squares are on the board and selections within range.
    pub open spec fn inv(&self) -> bool {
        &&& (self.session matches Some(s) ==> s.wf())
        &&& (self.replay matches Some(r) ==> r.wf())
        &&& (self.cursor matches Some(c) ==> c < 64)
        &&& (self.selected matches Some(c) ==> c < 64)
        &&& self.menu_sel < 6
        &&& self.setup_sel < 3
        &&& self.settings_sel < 7
        &&& modal_ok(self.modal)
    }

    /// A move can be applied without leaving the range of the clock's
    /// duration type (the side to move can be credited its increment).
    pub open spec fn credit_ok(&self) -> bool {
        self.session matches Some(s) ==> s.can_credit()
    }

    pub fn can_credit(&self) -> (r: bool)
        requires
            self.inv(),
        ensures
            r == self.credit_ok(),
    {
        match &self.session {
            Some(s) => s.can_credit_increment(),
            None => true,
        }
    }

    /// The state at start-up, on the main menu.
    pub fn new(config: Config, history: Option<History>) -> (a: App)
        ensures
            a.inv(),
            a.config == config,
            a.history == history,
            a.screen == Screen::Menu,
            !a.quit,
            a.menu_sel == 0 && a.lobby_sel == 0 && a.history_sel == 0,
            a.settings_sel == 0 && a.setup_sel == 0,
            a.lobby_status@.len() == 0,
            !a.settings_editing_name,
            a.setup_color == ColorChoice::White,
            a.setup_tc == (TimeControl { base_secs: 300, inc_secs: 0 }),
            a.session is None,
            !a.conn_open && !a.pending_open,
            a.cursor == Some(12u8),
            a.selected is None,
            !a.view_flip,
            a.started_iso@.len() == 0,
            !a.game_saved,
            a.toast is None,
            a.replay is None,
            a.invite_peer is None,
            a.invite_tc == (TimeControl { base_secs: 300, inc_secs: 0 }),
            a.modal is None,
    {
        App {
            config,
            history,
            screen: Screen::Menu,
            quit: false,
            menu_sel: 0,
            lobby_sel: 0,
            lobby_status: String::new(),
            history_sel: 0,
            settings_sel: 0,
            settings_editing_name: false,
            setup_sel: 0,
            setup_color: ColorChoice::White,
            setup_tc: TimeControl::base_5_0(),
            session: None,
            conn_open: false,
            cursor: Some(12u8),
            selected: None,
            view_flip: false,
            started_iso: String::new(),
            game_saved: false,
            pending_open: false,
            toast: None,
            replay: None,
            invite_peer: None,
            invite_tc: TimeControl::base_5_0(),
            modal: None,
        }
    }

    /// Show a brief status message.
    pub fn toast(&mut self, msg: &str)
        ensures
            final(self).toast matches Some((m, _)) && m@ == msg@,
            *final(self) == (App { toast: final(self).toast, ..*old(self) }),
    {
        let m = string_of(&chars_of(msg));
        self.toast = Some((m, monotonic_now()));
    }

    /// Drop the status message once it has been shown for six seconds.
    pub fn expire_toast(&mut self)
        ensures
            final(self).toast is None || final(self).toast == old(self).toast,
            *final(self) == (App { toast: final(self).toast, ..*old(self) }),
    {
        let expired = match &self.toast {
            Some((_, t)) => {
                let now = monotonic_now();
                toast_expired(nanos_between(t, &now))
            },
            None => false,
        };
        if expired {
            self.toast = None;
        }
    }

    /// Whether the board is seen from black's side: in a LAN game black
    /// sees it from their side, the configured flip applies on top of that,
    /// and the Tab toggle reverses the result.
    pub open spec fn flipped_spec(&self) -> bool {
        let lan_black = match self.session {
            Some(s) => s.my_color == Some(Side::Black),
            None => false,
        };
        (lan_black || self.config.flip_board) != self.view_flip
    }

    pub fn view_flipped(&self) -> (r: bool)
        ensures
            r == self.flipped_spec(),
    {
        let lan_black = match &self.session {
            Some(s) => s.my_color == Some(Side::Black),
            None => false,
        };
        (lan_black || self.config.flip_board) != self.view_flip
    }

    /// The cursor after a visual step of (`df`, `dr`) in the current
    /// orientation; it stays put at the edge of the board.
    pub open spec fn cursor_after(&self, df: int, dr: int) -> Option<u8> {
        let s: int = if self.flipped_spec() { -1 } else { 1 };
        match self.cursor {
            Some(sq) => {
                let f = file_of(sq) + df * s;
                let r = rank_of(sq) + dr * s;
                if 0 <= f < 8 && 0 <= r < 8 {
                    Some(square_at(f, r))
                } else {
                    Some(sq)
                }
            },
            None => None,
        }
    }

    /// Move the cursor visually, taking the orientation into account.
    pub fn move_cursor(&mut self, df: i32, dr: i32)
        requires
            old(self).inv(),
            -1 <= df <= 1,
            -1 <= dr <= 1,
        ensures
            final(self).inv(),
            *final(self) == (App { cursor: old(self).cursor_after(df as int, dr as int), ..*old(self) }),
    {
        let flip = self.view_flipped();
        let bf: i32 = if flip { -df } else { df };
        let br: i32 = if flip { -dr } else { dr };
        match self.cursor {
            Some(sq) => {
                let f: i32 = (sq % 8) as i32 + bf;
                let r: i32 = (sq / 8) as i32 + br;
                if 0 <= f && f < 8 && 0 <= r && r < 8 {
                    self.cursor = Some((r * 8 + f) as u8);
                }
            },
            None => {},
        }
    }
}

/// The two squares named at the start of a UCI text, if it names them.
pub open spec fn uci_squares_spec(u: Seq<u8>) -> Option<(u8, u8)> {
    if u.len() < 4 {
        None
    } else if is_file_byte(u[0]) && is_rank_byte(u[1]) && is_file_byte(u[2]) && is_rank_byte(
        u[3],
    ) {
        Some((square_of_bytes(u[0], u[1]), square_of_bytes(u[2], u[3])))
    } else {
        None
    }
}

/// The from and to squares of a UCI move text ("e2e4" gives e2 and e4).
pub fn parse_uci_squares(uci: &str) -> (r: Option<(u8, u8)>)
    ensures
        r == uci_squares_spec(vstd::utf8::encode_utf8(uci@)),
        r matches Some((a, b)) ==> a < 64 && b < 64,
{
    let b = uci.as_bytes();
    if b.len() < 4 {
        return None;
    }
    let (f0, r0, f1, r1) = (b[0], b[1], b[2], b[3]);
    if 97 <= f0 && f0 <= 104 && 49 <= r0 && r0 <= 56 && 97 <= f1 && f1 <= 104 && 49 <= r1 && r1
        <= 56 {
        Some(((r0 - 49) * 8 + (f0 - 97), (r1 - 49) * 8 + (f1 - 97)))
    } else {
        None
    }
}

/// Whether a status message shown for `shown_nanos` nanoseconds is due to
/// go: it stays for six seconds.
pub fn toast_expired(shown_nanos: u128) -> (r: bool)
    ensures
        r == (shown_nanos >= 6 * NANOS_PER_SEC),
{
    shown_nanos >= 6 * NANOS_PER_SEC
}

/// The coin that a reading of the system clock gives (as nanoseconds since
/// 1970, `None` when unreadable): the lowest bit of its sub-second part,
/// heads when there is no reading.
pub open spec fn coin_spec(nanos: Option<u128>) -> bool {
    match nanos {
        Some(n) => (n % 1_000_000_000) % 2 == 1,
        None => true,
    }
}

/// The coin that this reading of the system clock gives.
pub fn coin_from_time(nanos: Option<u128>) -> (r: bool)
    ensures
        r == coin_spec(nanos),
{
    match nanos {
        Some(n) => (n % 1_000_000_000) % 2 == 1,
        None => true,
    }
}

/// A coin flip from the system time: the lowest bit of its sub-second
/// nanoseconds (heads when the time cannot be read).
pub fn rand_bool() -> (r: bool) {
    coin_from_time(system_time_nanos())
}

/// `e` sends a move with this UCI text and clock reading on the game connection.
pub open spec fn sends_move(e: Effect, uci: Seq<char>, clock_ms: u64) -> bool {
    e matches Effect::Send(GameMsg::Move { uci: u, clock_ms: ms }) && u@ == uci && ms == clock_ms
}

/// `e` declines the pending connection's invite with this reason.
pub open spec fn declines_pending(e: Effect, reason: Seq<char>) -> bool {
    e matches Effect::SendPending(GameMsg::Decline { reason: t }) && t@ == reason
}

/// `e` turns away the connection that has just arrived with this reason.
pub open spec fn declines_incoming(e: Effect, reason: Seq<char>) -> bool {
    e matches Effect::SendIncoming(GameMsg::Decline { reason: t }) && t@ == reason
}

/// `s` is a game that has just begun: no moves, the start position, these
/// players and time control, both clocks full and white's running.
pub open spec fn fresh_game(
    s: Session,
    white: Seq<char>,
    black: Seq<char>,
    my: Option<Side>,
    tc: TimeControl,
) -> bool {
    &&& s.wf()
    &&& s.hist() == Seq::<crate::game::board::Mv>::empty()
    &&& s.pos() == crate::game::board::start_fen()
    &&& s.white_name@ == white
    &&& s.black_name@ == black
    &&& s.my_color == my
    &&& s.moves@.len() == 0
    &&& s.end is None
    &&& s.draw_offered_by is None
    &&& s.tc == tc
    &&& s.clock.rem(Side::White) == tc.base_nanos()
    &&& s.clock.rem(Side::Black) == tc.base_nanos()
    &&& s.clock.inc() == tc.inc_nanos()
    &&& s.clock.run() == Some(Side::White)
}

impl App {
    /// Legal destinations of the selected piece, shown as hints when all
    /// hints are on and the game runs; empty otherwise.
    pub fn selected_targets(&self) -> (r: Vec<u8>)
        requires
            self.inv(),
        ensures
            (match (self.session, self.selected) {
                (Some(s), Some(sq)) => self.config.show_hints == HintStyle::All && s.end is None,
                _ => false,
            }) || r@.len() == 0,
            forall|x: u8|
                r@.contains(x) <==> (match (self.session, self.selected) {
                    (Some(s), Some(sq)) => {
                        &&& self.config.show_hints == HintStyle::All
                        &&& s.end is None
                        &&& exists|k: int|
                            0 <= k < spec_legal_moves(s.pos()).len() && (#[trigger] spec_legal_moves(
                                s.pos(),
                            )[k]).from == sq && spec_legal_moves(s.pos())[k].to == x
                    },
                    _ => false,
                }),
    {
        match (&self.session, self.selected) {
            (Some(s), Some(sq)) => {
                if self.config.show_hints == HintStyle::All && !s.is_over() {
                    s.legal_targets(sq)
                } else {
                    Vec::new()
                }
            },
            _ => Vec::new(),
        }
    }

    /// The squares of the last move played, for highlighting.
    pub fn last_move_squares(&self) -> (r: Option<(u8, u8)>)
        ensures
            r == (match self.session {
                Some(s) => if s.moves@.len() > 0 {
                    uci_squares_spec(vstd::utf8::encode_utf8(s.moves@.last().uci@))
                } else {
                    None
                },
                None => None,
            }),
            r matches Some((a, b)) ==> a < 64 && b < 64,
    {
        match &self.session {
            Some(s) => {
                if s.moves.len() > 0 {
                    parse_uci_squares(s.moves[s.moves.len() - 1].uci.as_str())
                } else {
                    None
                }
            },
            None => None,
        }
    }

    /// The square of the king in check, if the side to move is in check.
    pub fn check_square(&self) -> (r: Option<u8>)
        ensures
            r == (match self.session {
                Some(s) => if spec_checker_count(s.pos()) > 0 {
                    Some(spec_king_square(s.pos(), spec_side_to_move(s.pos())))
                } else {
                    None
                },
                None => None,
            }),
    {
        match &self.session {
            Some(s) => {
                let board = s.board();
                if board.checker_count() > 0 {
                    Some(board.king_square(board.side_to_move()))
                } else {
                    None
                }
            },
            None => None,
        }
    }

    /// Begin a game with these players, our color and time control; the
    /// clock starts for white and the cursor is put on `cursor`.
    fn begin_game(
        &mut self,
        white: String,
        black: String,
        my: Option<Side>,
        tc: TimeControl,
        cursor: u8,
    )
        requires
            old(self).inv(),
            cursor < 64,
        ensures
            final(self).inv(),
            final(self).session matches Some(s) && fresh_game(s, white@, black@, my, tc)
                && s.white_name == white && s.black_name == black,
            exists|secs: i64| final(self).started_iso@ == iso_spec(secs as int),
            *final(self) == (App {
                session: final(self).session,
                started_iso: final(self).started_iso,
                game_saved: false,
                cursor: Some(cursor),
                selected: None,
                view_flip: false,
                screen: Screen::Playing,
                ..*old(self)
            }),
    {
        let mut s = Session::new(white, black, my, tc);
        s.clock.start(Side::White);
        self.session = Some(s);
        self.started_iso = now_iso();
        self.game_saved = false;
        self.cursor = Some(cursor);
        self.selected = None;
        self.view_flip = false;
        self.screen = Screen::Playing;
    }

    /// The players of a local game: our name on our color, "Black" or
    /// "White" for the other; with a random color we take white against "Friend".
    pub open spec fn local_players(&self) -> (Seq<char>, Seq<char>) {
        let name = self.config.player_name@;
        match self.setup_color {
            ColorChoice::White => (name, "Black"@),
            ColorChoice::Black => ("White"@, name),
            ColorChoice::Random => (name, "Friend"@),
        }
    }

    /// `b` follows from `a` when a local game starts (see `start_local_game`).
    pub open spec fn local_started(a: App, b: App) -> bool {
        &&& b.session matches Some(s) && fresh_game(
            s,
            a.local_players().0,
            a.local_players().1,
            None,
            a.setup_tc,
        )
        &&& exists|secs: i64| b.started_iso@ == iso_spec(secs as int)
        &&& b == (App {
            session: b.session,
            started_iso: b.started_iso,
            game_saved: false,
            cursor: Some(12u8),
            selected: None,
            view_flip: false,
            screen: Screen::Playing,
            ..a
        })
    }

    /// Start a local two-player game from the setup screen.
    pub fn start_local_game(&mut self)
        requires
            old(self).inv(),
        ensures
            final(self).inv(),
            App::local_started(*old(self), *final(self)),
    {
        let name = self.config.player_name.clone();
        let (white, black) = match self.setup_color {
            ColorChoice::White => (name, string_of(&chars_of("Black"))),
            ColorChoice::Black => (string_of(&chars_of("White")), name),
            ColorChoice::Random => (name, string_of(&chars_of("Friend"))),
        };
        let tc = self.setup_tc;
        self.begin_game(white, black, None, tc, 12);
    }
}

/// Some legal move goes from `from` to `to`.
pub open spec fn is_target(pos: Seq<char>, from: u8, to: u8) -> bool {
    exists|k: int|
        0 <= k < spec_legal_moves(pos).len() && (#[trigger] spec_legal_moves(pos)[k]).from == from
            && spec_legal_moves(pos)[k].to == to
}

/// Some legal move from `from` to `to` promotes.
pub open spec fn needs_promo(pos: Seq<char>, from: u8, to: u8) -> bool {
    exists|k: int|
        0 <= k < spec_legal_moves(pos).len() && (#[trigger] spec_legal_moves(pos)[k]).from == from
            && spec_legal_moves(pos)[k].to == to && spec_legal_moves(pos)[k].promo is Some
}

/// Whether `x` occurs in `v`.
pub fn contains_square(v: &Vec<u8>, x: u8) -> (r: bool)
    ensures
        r == v@.contains(x),
{
    let mut i: usize = 0;
    while i < v.len()
        invariant
            i <= v@.len(),
            forall|k: int| 0 <= k < i ==> v@[k] != x,
        decreases v@.len() - i,
    {
        if v[i] == x {
            assert(v@[i as int] == x);
            return true;
        }
        i = i + 1;
    }
    false
}

impl App {
    /// End-of-game bookkeeping once the game has ended, done once: mark it
    /// saved, advertise "ready" again, store the game when there is a
    /// history, and show the summary.
    pub open spec fn finalized(self) -> (App, Seq<Effect>) {
        if (self.session matches Some(s) && s.end is Some) && !self.game_saved {
            (
                App { game_saved: true, modal: Some(Modal::GameOver), ..self },
                if self.history is Some {
                    seq![Effect::SetStatus(PeerStatus::Ready), Effect::SaveGame]
                } else {
                    seq![Effect::SetStatus(PeerStatus::Ready)]
                },
            )
        } else {
            (self, seq![])
        }
    }

    /// Open the draw dialog when the opponent of a LAN game has a draw
    /// offer on the table.
    pub open spec fn with_draw_prompt(self) -> App {
        match self.session {
            Some(s) => match (s.draw_offered_by, s.my_color) {
                (Some(by), Some(me)) => if by != me {
                    App { modal: Some(Modal::DrawIncoming), ..self }
                } else {
                    self
                },
                _ => self,
            },
            None => self,
        }
    }

    /// What follows any move: end-of-game bookkeeping, or else the draw dialog.
    pub open spec fn after_move_spec(self) -> (App, Seq<Effect>) {
        let (a, e) = self.finalized();
        if a.session matches Some(s) && s.end is None {
            (a.with_draw_prompt(), e)
        } else {
            (a, e)
        }
    }

    /// Save the game and update the LAN status once it has ended.
    pub fn finalize_if_over(&mut self) -> (r: Vec<Effect>)
        requires
            old(self).inv(),
        ensures
            final(self).inv(),
            (*final(self), r@) == old(self).finalized(),
    {
        let over = match &self.session {
            Some(s) => s.is_over(),
            None => false,
        };
        if !over || self.game_saved {
            return Vec::new();
        }
        self.game_saved = true;
        let mut eff: Vec<Effect> = Vec::new();
        eff.push(Effect::SetStatus(PeerStatus::Ready));
        if self.history.is_some() {
            eff.push(Effect::SaveGame);
        }
        self.modal = Some(Modal::GameOver);
        assert(eff@ =~= old(self).finalized().1);
        eff
    }

    /// Report how storing the game went: the path written, or the error.
    pub fn note_saved(&mut self, outcome: Result<String, String>)
        ensures
            final(self).toast matches Some((m, _)) && m@ == (match outcome {
                Ok(p) => "saved: "@ + p@,
                Err(e) => "save failed: "@ + e@,
            }),
            *final(self) == (App { toast: final(self).toast, ..*old(self) }),
    {
        let mut text: Vec<char> = Vec::new();
        match &outcome {
            Ok(p) => {
                push_all(&mut text, &chars_of("saved: "));
                push_all(&mut text, &chars_of(p.as_str()));
            },
            Err(e) => {
                push_all(&mut text, &chars_of("save failed: "));
                push_all(&mut text, &chars_of(e.as_str()));
            },
        }
        let t = string_of(&text);
        self.toast(t.as_str());
    }

    fn maybe_open_draw_modal(&mut self)
        requires
            old(self).inv(),
        ensures
            final(self).inv(),
            *final(self) == old(self).with_draw_prompt(),
    {
        let (offered, my) = match &self.session {
            Some(s) => (s.draw_offered_by, s.my_color),
            None => (None, None),
        };
        match (offered, my) {
            (Some(by), Some(me)) => {
                if by != me {
                    self.modal = Some(Modal::DrawIncoming);
                }
            },
            _ => {},
        }
    }

    /// Bookkeeping after any move.
    fn after_move(&mut self) -> (r: Vec<Effect>)
        requires
            old(self).inv(),
        ensures
            final(self).inv(),
            (*final(self), r@) == old(self).after_move_spec(),
    {
        let eff = self.finalize_if_over();
        let running = match &self.session {
            Some(s) => !s.is_over(),
            None => false,
        };
        if running {
            self.maybe_open_draw_modal();
        }
        eff
    }

    /// Tell the opponent about the move just made (recorded as `uci`), with
    /// the mover's remaining time in whole milliseconds.
    fn send_move(&self, uci: &String) -> (r: Vec<Effect>)
        requires
            self.inv(),
        ensures
            (self.conn_open && self.session is Some) ==> ({
                let s = self.session->0;
                let mover = spec_side_to_move(s.pos()).opp();
                r@ == seq![Effect::Send(GameMsg::Move {
                    uci: *uci,
                    clock_ms: (s.clock.rem(mover) / 1_000_000) as u64,
                })]
            }),
            !(self.conn_open && self.session is Some) ==> r@.len() == 0,
    {
        let mut eff: Vec<Effect> = Vec::new();
        match &self.session {
            Some(s) => {
                if self.conn_open {
                    let mover = s.side_to_move().other();
                    let ms = s.clock.remaining(mover) / 1_000_000;
                    eff.push(Effect::Send(GameMsg::Move { uci: uci.clone(), clock_ms: ms as u64 }));
                }
            },
            None => {},
        }
        eff
    }
}

impl App {
    /// `new` and `effects` follow from `old` when our legal move `m` is
    /// played: the session advances by `m`, the selection is cleared, the
    /// move is sent to the opponent (over a held connection) with our
    /// remaining time, then the after-move bookkeeping runs.
    pub open spec fn played(old: App, new: App, effects: Seq<Effect>, m: crate::game::board::Mv) -> bool {
        &&& old.session matches Some(s)
        &&& new.session matches Some(ns)
        &&& exists|rec: MoveRecord| Session::moved(s, ns, m, rec)
        &&& ({
            let mid = App { session: new.session, selected: None, ..old };
            let k: int = if old.conn_open { 1 } else { 0 };
            let mover = spec_side_to_move(s.pos());
            &&& effects.len() >= k
            &&& (new, effects.skip(k)) == mid.after_move_spec()
            &&& old.conn_open ==> sends_move(
                effects[0],
                uci_spec(m),
                (ns.clock.rem(mover) / 1_000_000) as u64,
            )
        })
    }

    /// The outcome of trying to move the selected piece to `to` (see
    /// `attempt_move`): `b` and `r` follow from `a`.
    pub open spec fn attempt_move_outcome(a: App, b: App, r: Seq<Effect>, to: u8) -> bool {
            ({

                match (a.session, a.selected) {
                    (Some(s), Some(from)) => {
                        if s.end is Some || !s.my_turn_spec() || !is_target(s.pos(), from, to) {
                            b == a && r.len() == 0
                        } else if needs_promo(s.pos(), from, to) {
                            b == (App {
                                modal: Some(Modal::Promotion { from, to, sel: 0 }),
                                ..a
                            }) && r.len() == 0
                        } else {
                            App::played(
                                a,
                                b,
                                r,
                                crate::game::board::Mv { from, to, promo: None },
                            )
                        }
                    },
                    _ => b == a && r.len() == 0,
                }
            })
    }

    /// Play the move from the selected square to `to`: only our own legal
    /// move in a running game; a promotion opens the piece picker instead.
    pub fn attempt_move(&mut self, to: u8) -> (r: Vec<Effect>)
        requires
            old(self).inv(),
            old(self).credit_ok(),
            to < 64,
        ensures
            final(self).inv(),
            App::attempt_move_outcome(*old(self), *final(self), r@, to),
    {
        let from = match self.selected {
            Some(f) => f,
            None => return Vec::new(),
        };
        let (proceed, promo) = match &self.session {
            Some(sess) => {
                if sess.is_over() || !sess.is_my_turn() {
                    (false, false)
                } else if !contains_square(&sess.legal_targets(from), to) {
                    (false, false)
                } else {
                    (true, sess.needs_promotion(from, to))
                }
            },
            None => (false, false),
        };
        if !proceed {
            return Vec::new();
        }
        if promo {
            self.modal = Some(Modal::Promotion { from, to, sel: 0 });
            return Vec::new();
        }
        proof {
            let s = old(self).session->0;
            let k = choose|k: int|
                0 <= k < spec_legal_moves(s.pos()).len() && (#[trigger] spec_legal_moves(
                    s.pos(),
                )[k]).from == from && spec_legal_moves(s.pos())[k].to == to;
            assert(spec_legal_moves(s.pos())[k] == crate::game::board::Mv { from, to, promo: None });
        }
        self.play(from, to, None)
    }

    /// Apply our move and do what follows it; the move is legal.
    fn play(&mut self, from: u8, to: u8, promo: Option<PieceKind>) -> (r: Vec<Effect>)
        requires
            old(self).inv(),
            old(self).credit_ok(),
            from < 64,
            to < 64,
            old(self).session matches Some(s) && s.end is None && crate::game::board::is_legal(
                s.pos(),
                crate::game::board::Mv { from, to, promo },
            ),
        ensures
            final(self).inv(),
            App::played(*old(self), *final(self), r@, crate::game::board::Mv { from, to, promo }),
    {
        let ghost a = *old(self);
        let ghost s0 = old(self).session->0;
        let mut sess = self.session.take().unwrap();
        let rec = sess.try_move(from, to, promo).unwrap();
        assert(Session::moved(s0, sess, crate::game::board::Mv { from, to, promo }, rec));
        self.session = Some(sess);
        self.selected = None;
        let mut eff = self.send_move(&rec.uci);
        let ghost mid = *self;
        let tail = self.after_move();
        proof {
            let k: int = if a.conn_open { 1 } else { 0 };
            assert(eff@.len() == k);
        }
        let ghost e0 = eff@;
        let mut tail = tail;
        eff.append(&mut tail);
        proof {
            let k: int = if a.conn_open { 1 } else { 0 };
            assert(eff@.skip(k) =~= (*self, eff@.skip(k)).1);
            assert(eff@.skip(k) =~= mid.after_move_spec().1);
        }
        eff
    }

    /// The outcome of completing a promotion with `piece` (see
    /// `attempt_promotion`): `b` and `r` follow from `old`.
    pub open spec fn promotion_outcome(old: App, b: App, r: Seq<Effect>, piece: PieceKind) -> bool {
            ({
                let a = App { modal: None, ..old };
                match (old.modal, old.session) {
                    (Some(Modal::Promotion { from, to, sel }), Some(s)) => {
                        let m = crate::game::board::Mv { from, to, promo: Some(piece) };
                        if s.end is Some || !crate::game::board::is_legal(s.pos(), m) {
                            b == a && r.len() == 0
                        } else {
                            App::played(a, b, r, m)
                        }
                    },
                    (Some(Modal::Promotion { .. }), None) => b == a && r.len() == 0,
                    _ => b == old && r.len() == 0,
                }
            })
    }

    /// Complete a promotion with the chosen piece.
    pub fn attempt_promotion(&mut self, piece: PieceKind) -> (r: Vec<Effect>)
        requires
            old(self).inv(),
            old(self).credit_ok(),
        ensures
            final(self).inv(),
            App::promotion_outcome(*old(self), *final(self), r@, piece),
    {
        let (from, to) = match &self.modal {
            Some(Modal::Promotion { from, to, .. }) => (*from, *to),
            _ => return Vec::new(),
        };
        self.modal = None;
        let ok = match &self.session {
            Some(s) => !s.is_over() && crate::game::san::move_gen_contains(
                s.board(),
                crate::game::board::Mv { from, to, promo: Some(piece) },
            ),
            None => false,
        };
        if !ok {
            return Vec::new();
        }
        self.play(from, to, Some(piece))
    }
}

impl App {
    /// `new` and `effects` follow from `old` when its running game ends
    /// with this outcome (a game already over is left as it is), followed
    /// by the end-of-game bookkeeping.
    pub open spec fn ended_with(
        old: App,
        new: App,
        effects: Seq<Effect>,
        outcome: crate::game::session::Outcome,
        reason: Seq<char>,
        termination: Seq<char>,
    ) -> bool {
        &&& old.session matches Some(s)
        &&& if s.end is None {
            &&& new.session matches Some(ns)
            &&& Session::finished(s, ns, outcome, reason, termination)
            &&& (new, effects) == (App { session: new.session, ..old }).finalized()
        } else {
            (new, effects) == old.finalized()
        }
    }

    /// Start a LAN game as the inviting side, once the peer accepted: the
    /// colors are drawn at random and announced to the peer.
    fn start_lan_game_initiator(&mut self, peer_name: &String, tc: TimeControl) -> (r: Vec<Effect>)
        requires
            old(self).inv(),
        ensures
            final(self).inv(),
            final(self).session matches Some(s) && ({
                let w = s.my_color == Some(Side::White);
                let me = old(self).config.player_name;
                &&& s.my_color is Some
                &&& s.white_name == (if w { me } else { *peer_name })
                &&& s.black_name == (if w { *peer_name } else { me })
                &&& fresh_game(s, s.white_name@, s.black_name@, s.my_color, tc)
                &&& r@ == (if old(self).conn_open {
                    seq![Effect::Send(GameMsg::Start {
                        white_name: s.white_name,
                        black_name: s.black_name,
                        you_are_white: !w,
                        tc_secs: tc.base_secs as u32,
                        tc_inc: tc.inc_secs as u32,
                    })]
                } else {
                    seq![]
                }) + seq![Effect::SetStatus(PeerStatus::Playing)]
            }),
            exists|secs: i64| final(self).started_iso@ == iso_spec(secs as int),
            *final(self) == (App {
                session: final(self).session,
                started_iso: final(self).started_iso,
                game_saved: false,
                cursor: Some(12u8),
                selected: None,
                view_flip: false,
                screen: Screen::Playing,
                ..*old(self)
            }),
    {
        let you_white = rand_bool();
        let me = self.config.player_name.clone();
        let (white_name, black_name) = if you_white {
            (me, peer_name.clone())
        } else {
            (peer_name.clone(), me)
        };
        let mut eff: Vec<Effect> = Vec::new();
        if self.conn_open {
            eff.push(
                Effect::Send(
                    GameMsg::Start {
                        white_name: white_name.clone(),
                        black_name: black_name.clone(),
                        you_are_white: !you_white,
                        tc_secs: tc.base_secs as u32,
                        tc_inc: tc.inc_secs as u32,
                    },
                ),
            );
        }
        let my = if you_white {
            Side::White
        } else {
            Side::Black
        };
        self.begin_game(white_name, black_name, Some(my), tc, 12);
        let ghost e0 = eff@;
        eff.push(Effect::SetStatus(PeerStatus::Playing));
        proof {
            let s = self.session->0;
            assert(s.my_color == Some(my));
            assert(eff@ =~= e0 + seq![Effect::SetStatus(PeerStatus::Playing)]);
        }
        eff
    }

    /// Start a LAN game as the invited side, on the inviter's `Start`.
    fn start_lan_game_guest(
        &mut self,
        white_name: String,
        black_name: String,
        you_white: bool,
        tc: TimeControl,
    ) -> (r: Vec<Effect>)
        requires
            old(self).inv(),
        ensures
            final(self).inv(),
            final(self).session matches Some(s) && fresh_game(
                s,
                white_name@,
                black_name@,
                Some(if you_white { Side::White } else { Side::Black }),
                tc,
            ),
            r@ == seq![Effect::SetStatus(PeerStatus::Playing)],
            exists|secs: i64| final(self).started_iso@ == iso_spec(secs as int),
            *final(self) == (App {
                session: final(self).session,
                started_iso: final(self).started_iso,
                game_saved: false,
                cursor: Some(52u8),
                selected: None,
                view_flip: false,
                screen: Screen::Playing,
                ..*old(self)
            }),
    {
        let my = if you_white {
            Side::White
        } else {
            Side::Black
        };
        self.begin_game(white_name, black_name, Some(my), tc, 52);
        let mut eff: Vec<Effect> = Vec::new();
        eff.push(Effect::SetStatus(PeerStatus::Playing));
        assert(eff@ =~= seq![Effect::SetStatus(PeerStatus::Playing)]);
        eff
    }

    /// The effects of leaving a game (see `leave_game`).
    pub open spec fn leave_effects(self, resign: bool) -> Seq<Effect> {
        let resigning = resign && (self.session matches Some(s) && s.end is None && s.my_color is Some);
        (if resigning && self.conn_open {
            seq![Effect::Send(GameMsg::Resign)]
        } else {
            seq![]
        }) + (if self.conn_open {
            seq![Effect::Send(GameMsg::Bye), Effect::CloseConn]
        } else {
            seq![]
        }) + (if self.pending_open {
            seq![Effect::ClosePending]
        } else {
            seq![]
        }) + seq![Effect::SetStatus(PeerStatus::Ready)]
    }

    /// Leave the game screen for the menu, resigning first when asked and
    /// the LAN game still runs; the connections are closed and the game dropped.
    pub fn leave_game(&mut self, resign: bool) -> (r: Vec<Effect>)
        requires
            old(self).inv(),
        ensures
            final(self).inv(),
            r@ == old(self).leave_effects(resign),
            *final(self) == (App {
                session: None,
                conn_open: false,
                pending_open: false,
                modal: None,
                selected: None,
                screen: Screen::Menu,
                menu_sel: 0,
                ..*old(self)
            }),
    {
        let mut eff: Vec<Effect> = Vec::new();
        let resigning = match &self.session {
            Some(s) => resign && !s.is_over() && s.my_color.is_some(),
            None => false,
        };
        if resigning && self.conn_open {
            eff.push(Effect::Send(GameMsg::Resign));
        }
        if self.conn_open {
            eff.push(Effect::Send(GameMsg::Bye));
            eff.push(Effect::CloseConn);
        }
        if self.pending_open {
            eff.push(Effect::ClosePending);
        }
        eff.push(Effect::SetStatus(PeerStatus::Ready));
        self.conn_open = false;
        self.pending_open = false;
        self.session = None;
        self.modal = None;
        self.selected = None;
        self.screen = Screen::Menu;
        self.menu_sel = 0;
        assert(eff@ =~= old(self).leave_effects(resign));
        eff
    }

    /// The outcome of offering a draw (see `offer_draw`): `b` and `r`
    /// follow from `old`.
    pub open spec fn offer_draw_outcome(old: App, b: App, r: Seq<Effect>) -> bool {
            ({
                let a = old;
                match a.session {
                    Some(s) => match s.my_color {
                        Some(me) => if s.end is None {
                            &&& b.toast matches Some((m, _)) && m@ == "draw offered"@
                            &&& b == (App {
                                session: Some(Session { draw_offered_by: Some(me), ..s }),
                                toast: b.toast,
                                ..a
                            })
                            &&& r == (if a.conn_open {
                                seq![Effect::Send(GameMsg::DrawOffer)]
                            } else {
                                seq![]
                            })
                        } else {
                            b == a && r.len() == 0
                        },
                        None => {
                            &&& b.toast matches Some((m, _)) && m@
                                == "draw offers are for LAN games"@
                            &&& b == (App { toast: b.toast, ..a })
                            &&& r.len() == 0
                        },
                    },
                    None => {
                        &&& b.toast matches Some((m, _)) && m@
                            == "draw offers are for LAN games"@
                        &&& b == (App { toast: b.toast, ..a })
                        &&& r.len() == 0
                    },
                }
            })
    }

    /// Offer a draw to the LAN opponent (local games have no draw offers).
    pub fn offer_draw(&mut self) -> (r: Vec<Effect>)
        requires
            old(self).inv(),
        ensures
            final(self).inv(),
            App::offer_draw_outcome(*old(self), *final(self), r@),
    {
        let me = match &self.session {
            Some(s) => s.my_color,
            None => None,
        };
        let me = match me {
            Some(c) => c,
            None => {
                self.toast("draw offers are for LAN games");
                return Vec::new();
            },
        };
        let mut eff: Vec<Effect> = Vec::new();
        let mut sess = match self.session.take() {
            Some(s) => s,
            None => return eff,
        };
        if sess.is_over() {
            self.session = Some(sess);
            return eff;
        }
        sess.offer_draw(me);
        self.session = Some(sess);
        if self.conn_open {
            eff.push(Effect::Send(GameMsg::DrawOffer));
        }
        self.toast("draw offered");
        assert(eff@ =~= (if old(self).conn_open {
            seq![Effect::Send(GameMsg::DrawOffer)]
        } else {
            seq![]
        }));
        eff
    }

    /// Refuse the pending invitation and drop its connection.
    pub fn decline_invite(&mut self) -> (r: Vec<Effect>)
        requires
            old(self).inv(),
        ensures
            final(self).inv(),
            *final(self) == (App { pending_open: false, modal: None, ..*old(self) }),
            old(self).pending_open ==> r@.len() == 2 && declines_pending(r@[0], "declined"@)
                && r@[1] is ClosePending,
            !old(self).pending_open ==> r@.len() == 0,
    {
        let mut eff: Vec<Effect> = Vec::new();
        if self.pending_open {
            eff.push(Effect::SendPending(GameMsg::Decline { reason: string_of(&chars_of("declined")) }));
            eff.push(Effect::ClosePending);
            self.pending_open = false;
        }
        self.modal = None;
        eff
    }

    /// A peer connected to our listener. While a game runs it is told we
    /// are busy and dropped; otherwise it replaces any earlier pending one
    /// (which is told we are busy) and we start reading its invite.
    pub fn handle_incoming(&mut self) -> (r: Vec<Effect>)
        requires
            old(self).inv(),
        ensures
            final(self).inv(),
            old(self).session is Some ==> *final(self) == *old(self) && r@.len() == 2
                && declines_incoming(r@[0], "busy"@) && r@[1] is CloseIncoming,
            old(self).session is None ==> {
                &&& *final(self) == (App { pending_open: true, ..*old(self) })
                &&& old(self).pending_open ==> r@.len() == 3 && declines_pending(r@[0], "busy"@)
                    && r@[1] is ClosePending && r@[2] is AdoptIncoming
                &&& !old(self).pending_open ==> r@ == seq![Effect::AdoptIncoming]
            },
    {
        let mut eff: Vec<Effect> = Vec::new();
        if self.session.is_some() {
            eff.push(Effect::SendIncoming(GameMsg::Decline { reason: string_of(&chars_of("busy")) }));
            eff.push(Effect::CloseIncoming);
            return eff;
        }
        if self.pending_open {
            eff.push(Effect::SendPending(GameMsg::Decline { reason: string_of(&chars_of("busy")) }));
            eff.push(Effect::ClosePending);
        }
        self.pending_open = true;
        eff.push(Effect::AdoptIncoming);
        proof {
            if !old(self).pending_open {
                assert(eff@ =~= seq![Effect::AdoptIncoming]);
            }
        }
        eff
    }

    /// The connection died. During a game the opponent is taken to have
    /// left (we win by abandonment); during the invite handshake the dialog
    /// closes and the lobby shows why.
    pub fn handle_disconnect(&mut self, why: &str) -> (r: Vec<Effect>)
        requires
            old(self).inv(),
        ensures
            final(self).inv(),
            old(self).session matches Some(s) ==> {
                let me = match s.my_color {
                    Some(c) => c,
                    None => Side::White,
                };
                let k: int = if old(self).conn_open { 1 } else { 0 };
                &&& r@.len() >= k
                &&& old(self).conn_open ==> r@[0] is CloseConn
                &&& App::ended_with(
                    App { conn_open: false, ..*old(self) },
                    *final(self),
                    r@.skip(k),
                    crate::game::session::Outcome::Win(me),
                    "opponent disconnected"@,
                    "Abandoned"@,
                )
            },
            old(self).session is None ==> {
                &&& final(self).lobby_status@ == (if old(self).screen == Screen::Lobby {
                    "connection failed: "@ + why@
                } else {
                    old(self).lobby_status@
                })
                &&& *final(self) == (App {
                    modal: None,
                    pending_open: false,
                    conn_open: false,
                    lobby_status: final(self).lobby_status,
                    ..*old(self)
                })
                &&& r@ == (if old(self).pending_open {
                    seq![Effect::DropPending]
                } else {
                    seq![]
                }) + (if old(self).conn_open {
                    seq![Effect::DropConn]
                } else {
                    seq![]
                })
            },
    {
        let mut eff: Vec<Effect> = Vec::new();
        if self.session.is_some() {
            if self.conn_open {
                eff.push(Effect::CloseConn);
                self.conn_open = false;
            }
            let ghost mid = *self;
            let mut rest = self.abandon();
            proof {
                assert(App::ended_with(
                    mid,
                    *self,
                    rest@,
                    crate::game::session::Outcome::Win(
                        match old(self).session->0.my_color {
                            Some(c) => c,
                            None => Side::White,
                        },
                    ),
                    "opponent disconnected"@,
                    "Abandoned"@,
                ));
            }
            let ghost rest_v = rest@;
            eff.append(&mut rest);
            proof {
                let k: int = if old(self).conn_open { 1 } else { 0 };
                assert(eff@.skip(k) =~= rest_v);
            }
            return eff;
        }
        self.modal = None;
        if self.pending_open {
            eff.push(Effect::DropPending);
            self.pending_open = false;
        }
        if self.conn_open {
            eff.push(Effect::DropConn);
            self.conn_open = false;
        }
        if self.screen == Screen::Lobby {
            let mut text = chars_of("connection failed: ");
            push_all(&mut text, &chars_of(why));
            self.lobby_status = string_of(&text);
        }
        assert(eff@ =~= (if old(self).pending_open {
            seq![Effect::DropPending]
        } else {
            seq![]
        }) + (if old(self).conn_open {
            seq![Effect::DropConn]
        } else {
            seq![]
        }));
        eff
    }

    /// The opponent left a running game: we win by abandonment; then the
    /// end-of-game bookkeeping.
    fn abandon(&mut self) -> (r: Vec<Effect>)
        requires
            old(self).inv(),
            old(self).session is Some,
        ensures
            final(self).inv(),
            App::ended_with(
                *old(self),
                *final(self),
                r@,
                crate::game::session::Outcome::Win(
                    match old(self).session->0.my_color {
                        Some(c) => c,
                        None => Side::White,
                    },
                ),
                "opponent disconnected"@,
                "Abandoned"@,
            ),
    {
        let mut sess = self.session.take().unwrap();
        if !sess.is_over() {
            let me = match sess.my_color {
                Some(c) => c,
                None => Side::White,
            };
            sess.abandoned(me);
        }
        self.session = Some(sess);
        self.finalize_if_over()
    }
}

impl App {
    /// Our color in the running game, taken as white in a local game.
    pub open spec fn me_or_white(s: Session) -> Side {
        match s.my_color {
            Some(c) => c,
            None => Side::White,
        }
    }

    /// The outcome of a message from the peer (see `handle_msg`): `b` and
    /// `r` follow from `a`.
    pub open spec fn msg_outcome(a: App, b: App, r: Seq<Effect>, msg: GameMsg) -> bool {
        match msg {
            GameMsg::Invite { name, tc_secs, tc_inc } => App::invite_outcome(a, b, r, name, tc_secs, tc_inc),
            GameMsg::Accept => App::accept_outcome(a, b, r),
            GameMsg::Decline { reason } => App::decline_outcome(a, b, r, reason@),
            GameMsg::Start { white_name, black_name, you_are_white, tc_secs, tc_inc } => App::start_outcome(
                a,
                b,
                r,
                white_name@,
                black_name@,
                you_are_white,
                tc_secs,
                tc_inc,
            ),
            GameMsg::Move { uci, clock_ms } => App::move_outcome(a, b, r, uci@, clock_ms),
            GameMsg::DrawOffer => App::draw_offer_outcome(a, b, r),
            GameMsg::DrawAccept => match a.session {
                Some(s) => App::ended_with(
                    a,
                    b,
                    r,
                    crate::game::session::Outcome::Draw,
                    "draw by agreement"@,
                    "Agreement"@,
                ),
                None => b == a && r.len() == 0,
            },
            GameMsg::DrawDecline => App::draw_decline_outcome(a, b, r),
            GameMsg::Resign => match a.session {
                Some(s) => App::ended_with(
                    a,
                    b,
                    r,
                    crate::game::session::Outcome::Win(App::me_or_white(s)),
                    s.name_spec(App::me_or_white(s).opp()) + " resigned"@,
                    "Normal"@,
                ),
                None => b == a && r.len() == 0,
            },
            GameMsg::Timeout => match a.session {
                Some(s) => App::ended_with(
                    a,
                    b,
                    r,
                    crate::game::session::Outcome::Win(App::me_or_white(s)),
                    s.name_spec(App::me_or_white(s).opp()) + " ran out of time"@,
                    "Time forfeit"@,
                ),
                None => b == a && r.len() == 0,
            },
            GameMsg::Bye => App::bye_outcome(a, b, r),
        }
    }

    /// `Invite` on a pending connection, with no game running, opens the
    /// invitation dialog; otherwise it is ignored.
    pub open spec fn invite_outcome(a: App, b: App, r: Seq<Effect>, name: String, tc_secs: u32, tc_inc: u32) -> bool {
        if a.pending_open && a.session is None {
            &&& b == (App {
                modal: Some(Modal::IncomingInvite { sel: 0 }),
                invite_peer: Some(name),
                invite_tc: TimeControl { base_secs: tc_secs as u64, inc_secs: tc_inc as u64 },
                ..a
            })
            &&& r.len() == 0
        } else {
            b == a && r.len() == 0
        }
    }

    /// `Accept` while we wait for an answer starts the game as the inviter,
    /// with colors drawn at random and announced to the peer.
    pub open spec fn accept_outcome(a: App, b: App, r: Seq<Effect>) -> bool {
        if (a.modal matches Some(Modal::InviteWait { .. })) && a.invite_peer is Some {
            &&& b.session matches Some(s) && fresh_game(
                s,
                s.white_name@,
                s.black_name@,
                s.my_color,
                a.invite_tc,
            ) && s.my_color is Some && ({
                let w = s.my_color == Some(Side::White);
                let peer = a.invite_peer->0;
                &&& s.white_name == (if w { a.config.player_name } else { peer })
                &&& s.black_name == (if w { peer } else { a.config.player_name })
                &&& r == (if a.conn_open {
                    seq![Effect::Send(GameMsg::Start {
                        white_name: s.white_name,
                        black_name: s.black_name,
                        you_are_white: !w,
                        tc_secs: a.invite_tc.base_secs as u32,
                        tc_inc: a.invite_tc.inc_secs as u32,
                    })]
                } else {
                    seq![]
                }) + seq![Effect::SetStatus(PeerStatus::Playing)]
            })
            &&& exists|secs: i64| b.started_iso@ == iso_spec(secs as int)
            &&& b == (App {
                session: b.session,
                started_iso: b.started_iso,
                game_saved: false,
                cursor: Some(12u8),
                selected: None,
                view_flip: false,
                screen: Screen::Playing,
                modal: None,
                ..a
            })
        } else {
            b == a && r.len() == 0
        }
    }

    /// `Decline` while we wait drops the connection and shows the reason.
    pub open spec fn decline_outcome(a: App, b: App, r: Seq<Effect>, reason: Seq<char>) -> bool {
        if a.modal matches Some(Modal::InviteWait { .. }) {
            &&& b.modal matches Some(Modal::Info { title, body }) && title@ == "Invite declined"@
                && body@ == "Reason: "@ + reason
            &&& b == (App { conn_open: false, modal: b.modal, screen: Screen::Lobby, ..a })
            &&& r == (if a.conn_open {
                seq![Effect::DropConn]
            } else {
                seq![]
            })
        } else {
            b == a && r.len() == 0
        }
    }

    /// `Start` on the pending connection, with no game running, makes it the
    /// game connection and starts the game as the invited side.
    pub open spec fn start_outcome(
        a: App,
        b: App,
        r: Seq<Effect>,
        white_name: Seq<char>,
        black_name: Seq<char>,
        you_are_white: bool,
        tc_secs: u32,
        tc_inc: u32,
    ) -> bool {
        if a.session is None && a.pending_open {
            let tc = TimeControl { base_secs: tc_secs as u64, inc_secs: tc_inc as u64 };
            &&& b.session matches Some(s) && fresh_game(
                s,
                white_name,
                black_name,
                Some(
                    if you_are_white {
                        Side::White
                    } else {
                        Side::Black
                    },
                ),
                tc,
            )
            &&& r == seq![Effect::PromotePending, Effect::SetStatus(PeerStatus::Playing)]
            &&& exists|secs: i64| b.started_iso@ == iso_spec(secs as int)
            &&& b == (App {
                session: b.session,
                started_iso: b.started_iso,
                game_saved: false,
                cursor: Some(52u8),
                selected: None,
                view_flip: false,
                screen: Screen::Playing,
                modal: None,
                conn_open: true,
                pending_open: false,
                ..a
            })
        } else {
            b == a && r.len() == 0
        }
    }

    /// `Move` applies the opponent's legal move to the running game and
    /// adopts their clock reading, then the after-move bookkeeping runs;
    /// anything else is ignored.
    pub open spec fn move_outcome(a: App, b: App, r: Seq<Effect>, uci: Seq<char>, clock_ms: u64) -> bool {
        match a.session {
            Some(s) => if s.end is None && crate::game::san::uci_move_spec(
                s.pos(),
                vstd::utf8::encode_utf8(uci),
            ) is Some {
                &&& b.session matches Some(ns)
                &&& exists|rec: MoveRecord| Session::remote_applied(s, ns, uci, clock_ms, Some(rec))
                &&& (b, r) == (App { session: b.session, ..a }).after_move_spec()
            } else {
                b == a && r.len() == 0
            },
            None => b == a && r.len() == 0,
        }
    }

    /// `DrawOffer` puts the opponent's offer on the table of a running game
    /// and opens the draw dialog.
    pub open spec fn draw_offer_outcome(a: App, b: App, r: Seq<Effect>) -> bool {
        match a.session {
            Some(s) => if s.end is None {
                let them = match s.my_color {
                    Some(c) => c.opp(),
                    None => Side::Black,
                };
                &&& b == (App {
                    session: Some(Session { draw_offered_by: Some(them), ..s }),
                    ..a
                }).with_draw_prompt()
                &&& r.len() == 0
            } else {
                b == a && r.len() == 0
            },
            None => b == a && r.len() == 0,
        }
    }

    /// `DrawDecline` withdraws the draw offer and says so.
    pub open spec fn draw_decline_outcome(a: App, b: App, r: Seq<Effect>) -> bool {
        &&& b.toast matches Some((m, _)) && m@ == "draw declined"@
        &&& b == (App {
            session: match a.session {
                Some(s) => Some(Session { draw_offered_by: None, ..s }),
                None => None,
            },
            toast: b.toast,
            ..a
        })
        &&& r.len() == 0
    }

    /// `Bye` during a game closes the connection and counts as abandonment.
    pub open spec fn bye_outcome(a: App, b: App, r: Seq<Effect>) -> bool {
        match a.session {
            Some(s) => {
                let k: int = if a.conn_open { 1 } else { 0 };
                &&& r.len() >= k
                &&& a.conn_open ==> r[0] is CloseConn
                &&& App::ended_with(
                    App { conn_open: false, ..a },
                    b,
                    r.skip(k),
                    crate::game::session::Outcome::Win(App::me_or_white(s)),
                    "opponent disconnected"@,
                    "Abandoned"@,
                )
            },
            None => b == a && r.len() == 0,
        }
    }

    /// React to a message from the peer (see `msg_outcome`).
    #[verifier::rlimit(40)]
    pub fn handle_msg(&mut self, msg: GameMsg) -> (r: Vec<Effect>)
        requires
            old(self).inv(),
            msg is Move ==> old(self).credit_ok(),
        ensures
            final(self).inv(),
            App::msg_outcome(*old(self), *final(self), r@, msg),
    {
        match msg {
            GameMsg::Invite { name, tc_secs, tc_inc } => self.on_invite(name, tc_secs, tc_inc),
            GameMsg::Accept => self.on_accept(),
            GameMsg::Decline { reason } => self.on_decline(&reason),
            GameMsg::Start { white_name, black_name, you_are_white, tc_secs, tc_inc } => {
                self.on_start(white_name, black_name, you_are_white, tc_secs, tc_inc)
            },
            GameMsg::Move { uci, clock_ms } => self.on_move(&uci, clock_ms),
            GameMsg::DrawOffer => self.on_draw_offer(),
            GameMsg::DrawAccept => self.on_draw_accept(),
            GameMsg::DrawDecline => self.on_draw_decline(),
            GameMsg::Resign => self.on_resign(),
            GameMsg::Timeout => self.on_timeout(),
            GameMsg::Bye => self.on_bye(),
        }
    }

    fn on_invite(&mut self, name: String, tc_secs: u32, tc_inc: u32) -> (r: Vec<Effect>)
        requires
            old(self).inv(),
        ensures
            final(self).inv(),
            App::invite_outcome(*old(self), *final(self), r@, name, tc_secs, tc_inc),
    {
        if self.pending_open && self.session.is_none() {
            self.modal = Some(Modal::IncomingInvite { sel: 0 });
            self.invite_peer = Some(name);
            self.invite_tc = TimeControl::new(tc_secs as u64, tc_inc as u64);
        }
        Vec::new()
    }

    fn on_accept(&mut self) -> (r: Vec<Effect>)
        requires
            old(self).inv(),
        ensures
            final(self).inv(),
            App::accept_outcome(*old(self), *final(self), r@),
    {
        let waiting = match &self.modal {
            Some(Modal::InviteWait { .. }) => true,
            _ => false,
        };
        if !waiting {
            return Vec::new();
        }
        let peer = match &self.invite_peer {
            Some(p) => p.clone(),
            None => return Vec::new(),
        };
        let tc = self.invite_tc;
        self.modal = None;
        self.start_lan_game_initiator(&peer, tc)
    }

    fn on_decline(&mut self, reason: &String) -> (r: Vec<Effect>)
        requires
            old(self).inv(),
        ensures
            final(self).inv(),
            App::decline_outcome(*old(self), *final(self), r@, reason@),
    {
        let waiting = match &self.modal {
            Some(Modal::InviteWait { .. }) => true,
            _ => false,
        };
        let mut eff: Vec<Effect> = Vec::new();
        if waiting {
            if self.conn_open {
                eff.push(Effect::DropConn);
            }
            self.conn_open = false;
            let mut body = chars_of("Reason: ");
            push_all(&mut body, &chars_of(reason.as_str()));
            self.modal = Some(
                Modal::Info { title: string_of(&chars_of("Invite declined")), body: string_of(&body) },
            );
            self.screen = Screen::Lobby;
            assert(eff@ =~= (if old(self).conn_open {
                seq![Effect::DropConn]
            } else {
                seq![]
            }));
        }
        eff
    }

    fn on_start(
        &mut self,
        white_name: String,
        black_name: String,
        you_are_white: bool,
        tc_secs: u32,
        tc_inc: u32,
    ) -> (r: Vec<Effect>)
        requires
            old(self).inv(),
        ensures
            final(self).inv(),
            App::start_outcome(
                *old(self),
                *final(self),
                r@,
                white_name@,
                black_name@,
                you_are_white,
                tc_secs,
                tc_inc,
            ),
    {
        if self.session.is_some() || !self.pending_open {
            return Vec::new();
        }
        let mut eff: Vec<Effect> = Vec::new();
        eff.push(Effect::PromotePending);
        self.conn_open = true;
        self.pending_open = false;
        self.modal = None;
        let tc = TimeControl::new(tc_secs as u64, tc_inc as u64);
        let mut rest = self.start_lan_game_guest(white_name, black_name, you_are_white, tc);
        eff.append(&mut rest);
        assert(eff@ =~= seq![Effect::PromotePending, Effect::SetStatus(PeerStatus::Playing)]);
        eff
    }

    fn on_move(&mut self, uci: &String, clock_ms: u64) -> (r: Vec<Effect>)
        requires
            old(self).inv(),
            old(self).credit_ok(),
        ensures
            final(self).inv(),
            App::move_outcome(*old(self), *final(self), r@, uci@, clock_ms),
    {
        let mut sess = match self.session.take() {
            Some(s) => s,
            None => return Vec::new(),
        };
        let ghost s0 = sess;
        let res = sess.apply_remote_uci(uci.as_str(), clock_ms);
        self.session = Some(sess);
        match res {
            Some(rec) => {
                assert(Session::remote_applied(s0, self.session->0, uci@, clock_ms, Some(rec)));
                self.after_move()
            },
            None => Vec::new(),
        }
    }

    fn on_draw_offer(&mut self) -> (r: Vec<Effect>)
        requires
            old(self).inv(),
        ensures
            final(self).inv(),
            App::draw_offer_outcome(*old(self), *final(self), r@),
    {
        let mut sess = match self.session.take() {
            Some(s) => s,
            None => return Vec::new(),
        };
        if sess.is_over() {
            self.session = Some(sess);
            return Vec::new();
        }
        let them = match sess.my_color {
            Some(c) => c.other(),
            None => Side::Black,
        };
        sess.offer_draw(them);
        self.session = Some(sess);
        self.maybe_open_draw_modal();
        Vec::new()
    }

    fn on_draw_decline(&mut self) -> (r: Vec<Effect>)
        requires
            old(self).inv(),
        ensures
            final(self).inv(),
            App::draw_decline_outcome(*old(self), *final(self), r@),
    {
        match self.session.take() {
            Some(s) => {
                let mut s = s;
                s.decline_draw();
                self.session = Some(s);
            },
            None => {},
        }
        self.toast("draw declined");
        Vec::new()
    }


    fn on_draw_accept(&mut self) -> (r: Vec<Effect>)
        requires
            old(self).inv(),
        ensures
            final(self).inv(),
            match old(self).session {
                Some(s) => App::ended_with(
                    *old(self),
                    *final(self),
                    r@,
                    crate::game::session::Outcome::Draw,
                    "draw by agreement"@,
                    "Agreement"@,
                ),
                None => *final(self) == *old(self) && r@.len() == 0,
            },
    {
        let mut sess = match self.session.take() {
            Some(s) => s,
            None => return Vec::new(),
        };
        sess.accept_draw();
        self.session = Some(sess);
        self.finalize_if_over()
    }

    fn on_resign(&mut self) -> (r: Vec<Effect>)
        requires
            old(self).inv(),
        ensures
            final(self).inv(),
            match old(self).session {
                Some(s) => App::ended_with(
                    *old(self),
                    *final(self),
                    r@,
                    crate::game::session::Outcome::Win(App::me_or_white(s)),
                    s.name_spec(App::me_or_white(s).opp()) + " resigned"@,
                    "Normal"@,
                ),
                None => *final(self) == *old(self) && r@.len() == 0,
            },
    {
        let mut sess = match self.session.take() {
            Some(s) => s,
            None => return Vec::new(),
        };
        let me = match sess.my_color {
            Some(c) => c,
            None => Side::White,
        };
        sess.resign(me.other());
        self.session = Some(sess);
        self.finalize_if_over()
    }

    fn on_timeout(&mut self) -> (r: Vec<Effect>)
        requires
            old(self).inv(),
        ensures
            final(self).inv(),
            match old(self).session {
                Some(s) => App::ended_with(
                    *old(self),
                    *final(self),
                    r@,
                    crate::game::session::Outcome::Win(App::me_or_white(s)),
                    s.name_spec(App::me_or_white(s).opp()) + " ran out of time"@,
                    "Time forfeit"@,
                ),
                None => *final(self) == *old(self) && r@.len() == 0,
            },
    {
        let mut sess = match self.session.take() {
            Some(s) => s,
            None => return Vec::new(),
        };
        let me = match sess.my_color {
            Some(c) => c,
            None => Side::White,
        };
        sess.timeout(me.other());
        self.session = Some(sess);
        self.finalize_if_over()
    }

    fn on_bye(&mut self) -> (r: Vec<Effect>)
        requires
            old(self).inv(),
        ensures
            final(self).inv(),
            App::bye_outcome(*old(self), *final(self), r@),
    {
        if self.session.is_none() {
            return Vec::new();
        }
        let mut eff: Vec<Effect> = Vec::new();
        if self.conn_open {
            eff.push(Effect::CloseConn);
            self.conn_open = false;
        }
        let mut rest = self.abandon();
        let ghost rest_v = rest@;
        eff.append(&mut rest);
        proof {
            let k: int = if old(self).conn_open { 1 } else { 0 };
            assert(eff@.skip(k) =~= rest_v);
        }
        eff
    }

}

impl App {
    /// `t` is the session `s` after its clock was brought up to date.
    pub open spec fn clock_ticked(s: Session, t: Session) -> bool {
        &&& crate::game::clock::Clock::ticked(s.clock, t.clock)
        &&& t == (Session { clock: t.clock, ..s })
    }

    /// Bring the running game's clock up to date; a side whose time ran out
    /// loses on time (the opponent is told when it is us), then the
    /// end-of-game bookkeeping runs. Finally an old status message expires.
    pub fn tick(&mut self) -> (r: Vec<Effect>)
        requires
            old(self).inv(),
        ensures
            final(self).inv(),
            final(self).toast is None || final(self).toast == old(self).toast,
            old(self).session is None ==> *final(self) == (App {
                toast: final(self).toast,
                ..*old(self)
            }) && r@.len() == 0,
            old(self).session matches Some(s) ==> exists|t: Session|
                {
                    &&& #[trigger] App::clock_ticked(s, t)
                    &&& t.clock.flagged_spec() is None ==> *final(self) == (App {
                        session: Some(t),
                        toast: final(self).toast,
                        ..*old(self)
                    }) && r@.len() == 0
                    &&& t.clock.flagged_spec() matches Some(f) ==> {
                        let mine = t.my_color == Some(f);
                        let k: int = if mine && old(self).conn_open { 1 } else { 0 };
                        let mid = App { session: Some(t), ..*old(self) };
                        &&& r@.len() >= k
                        &&& k == 1 ==> r@[0] == Effect::Send(GameMsg::Timeout)
                        &&& App::ended_with(
                            mid,
                            App { toast: mid.toast, ..*final(self) },
                            r@.skip(k),
                            crate::game::session::Outcome::Win(f.opp()),
                            t.name_spec(f) + " ran out of time"@,
                            "Time forfeit"@,
                        )
                    }
                },
    {
        let mut eff: Vec<Effect> = Vec::new();
        match self.session.take() {
            Some(s) => {
                let mut sess = s;
                let ghost s0 = sess;
                sess.clock.tick();
                let ghost t = sess;
                assert(App::clock_ticked(s0, t));
                let flagged = sess.clock.flagged();
                match flagged {
                    Some(f) => {
                        let mine = sess.my_color == Some(f);
                        sess.timeout(f);
                        self.session = Some(sess);
                        if mine && self.conn_open {
                            eff.push(Effect::Send(GameMsg::Timeout));
                        }
                        let mut rest = self.finalize_if_over();
                        let ghost rest_v = rest@;
                        eff.append(&mut rest);
                        proof {
                            let k: int = if mine && old(self).conn_open { 1 } else { 0 };
                            assert(eff@.skip(k) =~= rest_v);
                        }
                    },
                    None => {
                        self.session = Some(sess);
                    },
                }
                let ghost before = *self;
                self.expire_toast();
                assert(*self == (App { toast: self.toast, ..before }));
            },
            None => {
                self.expire_toast();
            },
        }
        eff
    }

    /// Report the outcome of dialing the invited peer: on success the
    /// invite is sent and we wait for the answer; on failure the lobby
    /// shows why.
    pub fn on_dialed(&mut self, outcome: Result<(), String>) -> (r: Vec<Effect>)
        requires
            old(self).inv(),
        ensures
            final(self).inv(),
            outcome is Ok ==> {
                &&& final(self).modal matches Some(Modal::InviteWait { peer }) && peer@ == (match old(self).invite_peer {
                    Some(p) => p@,
                    None => Seq::<char>::empty(),
                })
                &&& *final(self) == (App { conn_open: true, modal: final(self).modal, ..*old(self) })
                &&& r@ == seq![Effect::Send(GameMsg::Invite {
                    name: old(self).config.player_name,
                    tc_secs: old(self).invite_tc.base_secs as u32,
                    tc_inc: old(self).invite_tc.inc_secs as u32,
                })]
            },
            outcome matches Err(e) ==> {
                &&& final(self).lobby_status@ == "connect failed: "@ + e@
                &&& *final(self) == (App { lobby_status: final(self).lobby_status, ..*old(self) })
                &&& r@.len() == 0
            },
    {
        match outcome {
            Ok(()) => {
                let mut eff: Vec<Effect> = Vec::new();
                eff.push(
                    Effect::Send(
                        GameMsg::Invite {
                            name: self.config.player_name.clone(),
                            tc_secs: self.invite_tc.base_secs as u32,
                            tc_inc: self.invite_tc.inc_secs as u32,
                        },
                    ),
                );
                self.conn_open = true;
                let peer = match &self.invite_peer {
                    Some(p) => p.clone(),
                    None => String::new(),
                };
                self.modal = Some(Modal::InviteWait { peer });
                assert(eff@ =~= seq![Effect::Send(GameMsg::Invite {
                    name: old(self).config.player_name,
                    tc_secs: old(self).invite_tc.base_secs as u32,
                    tc_inc: old(self).invite_tc.inc_secs as u32,
                })]);
                eff
            },
            Err(e) => {
                let mut text = chars_of("connect failed: ");
                push_all(&mut text, &chars_of(e.as_str()));
                self.lobby_status = string_of(&text);
                Vec::new()
            },
        }
    }

    /// Report that a history entry was removed and `len` entries remain:
    /// the selection steps back when it was on the last entry or beyond.
    pub fn after_delete(&mut self, len: usize)
        ensures
            *final(self) == (App {
                history_sel: if old(self).history_sel + 1 >= len && old(self).history_sel > 0 {
                    (old(self).history_sel - 1) as usize
                } else {
                    old(self).history_sel
                },
                ..*old(self)
            }),
    {
        let last = if len > 0 {
            len - 1
        } else {
            0
        };
        if self.history_sel >= last {
            self.history_sel = if self.history_sel > 0 {
                self.history_sel - 1
            } else {
                0
            };
        }
    }

    /// Open a stored game's text for replay, from its first position.
    pub fn open_replay(&mut self, text: &str)
        requires
            old(self).inv(),
        ensures
            final(self).inv(),
            final(self).replay matches Some(rp) && rp.idx == 0 && rp.sans_view() == tokens_spec(
                scan_lines(lines_spec(text@)).movetext,
            ),
            *final(self) == (App { replay: final(self).replay, screen: Screen::Replay, ..*old(self) }),
    {
        self.replay = Some(replay_of_pgn(text));
        self.screen = Screen::Replay;
    }
}

} // verus!
