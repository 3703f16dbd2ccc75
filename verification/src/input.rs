//! Keyboard handling: a key goes to the open dialog if there is one, else
//! to the current screen.
use vstd::prelude::*;
use crate::app::{
    App, ColorChoice, Effect, Key, KeyCode, Modal, PeerInfo, Screen,
};
use crate::config::{Config, is_control, is_control_spec, next_hint_style, next_piece_style, next_preset};
use crate::game::board::{PieceKind, spec_legal_moves, start_fen};
use crate::game::pgn::{Replay, replay_line};
use crate::game::san::piece_letter_spec;
use crate::game::session::{Session, TimeControl};
use crate::net::proto::{GameMsg, PeerStatus};
use crate::text::{chars_of, push_all, push_char, string_of};

verus! {

/// The pieces offered by the promotion picker, in order.
pub open spec fn promo_choice(sel: usize) -> PieceKind {
    if sel == 0 {
        PieceKind::Queen
    } else if sel == 1 {
        PieceKind::Rook
    } else if sel == 2 {
        PieceKind::Bishop
    } else {
        PieceKind::Knight
    }
}

/// The promotion picker offers, left to right, the queen, rook, bishop and
/// knight: from the strongest piece down (by the order pawn, knight, bishop,
/// rook, queen, king, the piece at place `sel` is the `4 - sel`th), and the
/// initials of its labels spell "QRBN".
pub proof fn law_promotion_picker_order(sel: usize)
    requires
        sel < 4,
    ensures
        promo_choice(sel).spec_index() == 4 - sel,
        piece_letter_spec(promo_choice(sel)) == "QRBN"@[sel as int],
{
    reveal_strlit("QRBN");
}

fn promo_piece(sel: usize) -> (p: PieceKind)
    ensures
        p == promo_choice(sel),
{
    if sel == 0 {
        PieceKind::Queen
    } else if sel == 1 {
        PieceKind::Rook
    } else if sel == 2 {
        PieceKind::Bishop
    } else {
        PieceKind::Knight
    }
}

/// The other choice of a two-way dialog.
pub open spec fn other_choice(sel: usize) -> usize {
    (1 - sel) as usize
}

/// Some legal move starts on `sq`.
pub open spec fn has_moves_from(pos: Seq<char>, sq: u8) -> bool {
    exists|k: int| 0 <= k < spec_legal_moves(pos).len() && (#[trigger] spec_legal_moves(pos)[k]).from == sq
}

/// The replay can step forward: a move is left and its text names a legal move.
pub open spec fn advances(rp: Replay) -> bool {
    rp.idx < rp.sans_view().len() && crate::game::board::spec_from_san(
        rp.pos(),
        rp.sans_view()[rp.idx as int],
    ) is Some
}

/// The position of a time control among the presets (the first when it is none of them).
pub open spec fn preset_pos(tc: TimeControl) -> int {
    let p = TimeControl::presets_spec();
    if exists|i: int| 0 <= i < 4 && p[i] == tc {
        choose|i: int| 0 <= i < 4 && p[i] == tc
    } else {
        0
    }
}

/// The position of a color choice in the cycling order.
pub open spec fn color_pos(c: ColorChoice) -> int {
    match c {
        ColorChoice::White => 0,
        ColorChoice::Black => 1,
        ColorChoice::Random => 2,
    }
}

impl App {
    /// The dialog outcomes of keys. `a` is the state with the dialog `m`
    /// taken off; every key is consumed by the dialog, and a key the dialog
    /// has no use for closes the confirmation, summary and information
    /// dialogs but leaves pickers and menus open.
    pub open spec fn modal_outcome(a: App, m: Modal, key: Key, b: App, r: Seq<Effect>) -> bool {
        let code = key.code;
        match m {
            Modal::Promotion { from, to, sel } => match code {
                KeyCode::Left | KeyCode::Up => b == (App {
                    modal: Some(Modal::Promotion { from, to, sel: ((sel + 3) % 4) as usize }),
                    ..a
                }) && r.len() == 0,
                KeyCode::Right | KeyCode::Down => b == (App {
                    modal: Some(Modal::Promotion { from, to, sel: ((sel + 1) % 4) as usize }),
                    ..a
                }) && r.len() == 0,
                KeyCode::Enter => App::promotion_outcome(
                    App { modal: Some(m), ..a },
                    b,
                    r,
                    promo_choice(sel),
                ),
                KeyCode::Esc => b == (App { selected: None, ..a }) && r.len() == 0,
                _ => b == (App { modal: Some(m), ..a }) && r.len() == 0,
            },
            Modal::GameMenu { sel } => match code {
                KeyCode::Up => b == (App {
                    modal: Some(Modal::GameMenu { sel: ((sel + 3) % 4) as usize }),
                    ..a
                }) && r.len() == 0,
                KeyCode::Down => b == (App {
                    modal: Some(Modal::GameMenu { sel: ((sel + 1) % 4) as usize }),
                    ..a
                }) && r.len() == 0,
                KeyCode::Esc => b == a && r.len() == 0,
                KeyCode::Enter => if sel == 0 {
                    b == a && r.len() == 0
                } else if sel == 1 {
                    App::offer_draw_outcome(a, b, r)
                } else if sel == 2 {
                    App::left(a, b, r, true)
                } else {
                    b == (App { modal: Some(Modal::LeaveConfirm { sel: 0 }), ..a }) && r.len() == 0
                },
                _ => b == (App { modal: Some(m), ..a }) && r.len() == 0,
            },
            Modal::GameOver => match code {
                KeyCode::Enter => App::left(a, b, r, false),
                _ => b == a && r.len() == 0,
            },
            Modal::DrawIncoming => match code {
                KeyCode::Enter | KeyCode::Char('y') | KeyCode::Char('Y') => App::draw_accepted(a, b, r),
                KeyCode::Esc | KeyCode::Char('n') | KeyCode::Char('N') => {
                    &&& b == (App {
                        session: match a.session {
                            Some(s) => Some(Session { draw_offered_by: None, ..s }),
                            None => None,
                        },
                        ..a
                    })
                    &&& r == (if a.conn_open {
                        seq![Effect::Send(GameMsg::DrawDecline)]
                    } else {
                        seq![]
                    })
                },
                _ => b == a && r.len() == 0,
            },
            Modal::IncomingInvite { sel } => match code {
                KeyCode::Left | KeyCode::Right => b == (App {
                    modal: Some(Modal::IncomingInvite { sel: other_choice(sel) }),
                    ..a
                }) && r.len() == 0,
                KeyCode::Enter => if sel == 0 {
                    &&& b.toast matches Some((t, _)) && t@ == "waiting for the game to start..."@
                    &&& b == (App { toast: b.toast, ..a })
                    &&& r == (if a.pending_open {
                        seq![Effect::SendPending(GameMsg::Accept)]
                    } else {
                        seq![]
                    })
                } else {
                    App::invite_declined(a, b, r)
                },
                KeyCode::Esc => App::invite_declined(a, b, r),
                _ => b == a && r.len() == 0,
            },
            Modal::InviteWait { .. } => match code {
                KeyCode::Esc => b == (App { conn_open: false, ..a }) && r == (if a.conn_open {
                    seq![Effect::Send(GameMsg::Bye), Effect::CloseConn]
                } else {
                    seq![]
                }),
                _ => b == a && r.len() == 0,
            },
            Modal::Info { .. } => b == a && r.len() == 0,
            Modal::LeaveConfirm { sel } => match code {
                KeyCode::Left | KeyCode::Right => b == (App {
                    modal: Some(Modal::LeaveConfirm { sel: other_choice(sel) }),
                    ..a
                }) && r.len() == 0,
                KeyCode::Enter => if sel == 0 {
                    App::left(a, b, r, true)
                } else {
                    b == a && r.len() == 0
                },
                _ => b == a && r.len() == 0,
            },
            Modal::QuitConfirm { sel } => match code {
                KeyCode::Left | KeyCode::Right => b == (App {
                    modal: Some(Modal::QuitConfirm { sel: other_choice(sel) }),
                    ..a
                }) && r.len() == 0,
                KeyCode::Enter => if sel == 0 {
                    b == (App { quit: true, ..a }) && r.len() == 0
                } else {
                    b == a && r.len() == 0
                },
                _ => b == a && r.len() == 0,
            },
            Modal::DeleteConfirm { sel } => match code {
                KeyCode::Left | KeyCode::Right => b == (App {
                    modal: Some(Modal::DeleteConfirm { sel: other_choice(sel) }),
                    ..a
                }) && r.len() == 0,
                KeyCode::Enter => if sel == 0 {
                    App::delete_outcome(a, b, r)
                } else {
                    b == a && r.len() == 0
                },
                _ => b == a && r.len() == 0,
            },
        }
    }

    /// `b` and `r` follow from `a` when we leave the game (see `leave_game`).
    pub open spec fn left(a: App, b: App, r: Seq<Effect>, resign: bool) -> bool {
        &&& r == a.leave_effects(resign)
        &&& b == (App {
            session: None,
            conn_open: false,
            pending_open: false,
            modal: None,
            selected: None,
            screen: Screen::Menu,
            menu_sel: 0,
            ..a
        })
    }

    /// `b` and `r` follow from `a` when we turn down the pending invitation.
    pub open spec fn invite_declined(a: App, b: App, r: Seq<Effect>) -> bool {
        &&& b == (App { pending_open: false, modal: None, ..a })
        &&& a.pending_open ==> r.len() == 2 && crate::app::declines_pending(r[0], "declined"@)
            && r[1] is ClosePending
        &&& !a.pending_open ==> r.len() == 0
    }

    /// `b` and `r` follow from `a` when we accept the opponent's draw offer:
    /// the running game ends drawn, the opponent is told (over a held
    /// connection), then the end-of-game bookkeeping runs.
    pub open spec fn draw_accepted(a: App, b: App, r: Seq<Effect>) -> bool {
        let k: int = if a.conn_open { 1 } else { 0 };
        &&& r.len() >= k
        &&& a.conn_open ==> r[0] == Effect::Send(GameMsg::DrawAccept)
        &&& match a.session {
            Some(s) => App::ended_with(
                a,
                b,
                r.skip(k),
                crate::game::session::Outcome::Draw,
                "draw by agreement"@,
                "Agreement"@,
            ),
            None => (b, r.skip(k)) == a.finalized(),
        }
    }

    /// `b` and `r` follow from `a` when the selected history entry is to be
    /// deleted: the application removes it and reports the new count; with
    /// no history the selection just steps back.
    pub open spec fn delete_outcome(a: App, b: App, r: Seq<Effect>) -> bool {
        if a.history is Some {
            b == a && r == seq![Effect::DeleteHistory(a.history_sel)]
        } else {
            b == (App {
                history_sel: if a.history_sel > 0 {
                    (a.history_sel - 1) as usize
                } else {
                    0
                },
                ..a
            }) && r.len() == 0
        }
    }

    /// The main menu.
    pub open spec fn menu_outcome(a: App, b: App, r: Seq<Effect>, code: KeyCode) -> bool {
        match code {
            KeyCode::Up => b == (App { menu_sel: ((a.menu_sel + 5) % 6) as usize, ..a }) && r.len() == 0,
            KeyCode::Down => b == (App { menu_sel: ((a.menu_sel + 1) % 6) as usize, ..a }) && r.len() == 0,
            KeyCode::Enter | KeyCode::Char(' ') => if a.menu_sel == 0 {
                b == (App {
                    setup_tc: TimeControl {
                        base_secs: a.config.tc_base_secs,
                        inc_secs: a.config.tc_inc_secs,
                    },
                    screen: Screen::LocalSetup,
                    setup_sel: 0,
                    ..a
                }) && r.len() == 0
            } else if a.menu_sel == 1 {
                &&& b.lobby_status@.len() == 0
                &&& b == (App {
                    screen: Screen::Lobby,
                    lobby_sel: 0,
                    lobby_status: b.lobby_status,
                    ..a
                })
                &&& r == seq![Effect::RefreshPeers]
            } else if a.menu_sel == 2 {
                b == (App { screen: Screen::History, history_sel: 0, ..a }) && r.len() == 0
            } else if a.menu_sel == 3 {
                b == (App {
                    screen: Screen::Settings,
                    settings_sel: 0,
                    settings_editing_name: false,
                    ..a
                }) && r.len() == 0
            } else if a.menu_sel == 4 {
                b == (App { screen: Screen::Help, ..a }) && r.len() == 0
            } else {
                b == (App { modal: Some(Modal::QuitConfirm { sel: 0 }), ..a }) && r.len() == 0
            },
            KeyCode::Char('q') | KeyCode::Char('Q') | KeyCode::Esc => b == (App {
                modal: Some(Modal::QuitConfirm { sel: 0 }),
                ..a
            }) && r.len() == 0,
            _ => b == a && r.len() == 0,
        }
    }

    /// The lobby, with the peers currently listed.
    pub open spec fn lobby_outcome(
        a: App,
        b: App,
        r: Seq<Effect>,
        code: KeyCode,
        peers: Seq<PeerInfo>,
    ) -> bool {
        let n = peers.len();
        match code {
            KeyCode::Up => if n > 0 {
                b == (App { lobby_sel: ((a.lobby_sel + n - 1) % (n as int)) as usize, ..a }) && r.len() == 0
            } else {
                b == a && r.len() == 0
            },
            KeyCode::Down => if n > 0 {
                b == (App { lobby_sel: ((a.lobby_sel + 1) % (n as int)) as usize, ..a }) && r.len() == 0
            } else {
                b == a && r.len() == 0
            },
            KeyCode::Char('r') | KeyCode::Char('R') => b == a && r == seq![Effect::RefreshPeers],
            KeyCode::Enter => if a.lobby_sel < n {
                let p = peers[a.lobby_sel as int];
                if p.status == PeerStatus::Playing {
                    &&& b.lobby_status@ == p.name@ + " is already playing"@
                    &&& b == (App { lobby_status: b.lobby_status, ..a })
                    &&& r.len() == 0
                } else {
                    &&& b == (App {
                        invite_peer: Some(p.name),
                        invite_tc: TimeControl {
                            base_secs: a.config.tc_base_secs,
                            inc_secs: a.config.tc_inc_secs,
                        },
                        ..a
                    })
                    &&& r == seq![Effect::Dial(a.lobby_sel)]
                }
            } else {
                b == a && r.len() == 0
            },
            KeyCode::Esc => b == (App { screen: Screen::Menu, ..a }) && r.len() == 0,
            _ => b == a && r.len() == 0,
        }
    }

    /// The setup value under the selection moved one step right or left.
    pub open spec fn setup_cycled(a: App, right: bool) -> App {
        let step: int = if right { 1 } else { 2 };
        let pstep: int = if right { 1 } else { 3 };
        if a.setup_sel == 0 {
            App {
                setup_color: ColorChoice::all_spec()[(color_pos(a.setup_color) + step) % 3],
                ..a
            }
        } else if a.setup_sel == 1 {
            App {
                setup_tc: TimeControl::presets_spec()[(preset_pos(a.setup_tc) + pstep) % 4],
                ..a
            }
        } else {
            a
        }
    }

    /// The local game setup screen.
    pub open spec fn setup_outcome(a: App, b: App, r: Seq<Effect>, code: KeyCode) -> bool {
        match code {
            KeyCode::Up => b == (App { setup_sel: ((a.setup_sel + 2) % 3) as usize, ..a }) && r.len() == 0,
            KeyCode::Down => b == (App { setup_sel: ((a.setup_sel + 1) % 3) as usize, ..a }) && r.len() == 0,
            KeyCode::Left => b == App::setup_cycled(a, false) && r.len() == 0,
            KeyCode::Right => b == App::setup_cycled(a, true) && r.len() == 0,
            KeyCode::Enter => if a.setup_sel < 2 {
                b == App::setup_cycled(a, true) && r.len() == 0
            } else {
                App::local_started(a, b) && r.len() == 0
            },
            KeyCode::Esc => b == (App { screen: Screen::Menu, ..a }) && r.len() == 0,
            _ => b == a && r.len() == 0,
        }
    }

    /// The game screen.
    pub open spec fn game_outcome(a: App, b: App, r: Seq<Effect>, code: KeyCode) -> bool {
        let over = a.session matches Some(s) && s.end is Some;
        match code {
            KeyCode::Up => b == (App { cursor: a.cursor_after(0, 1), ..a }) && r.len() == 0,
            KeyCode::Down => b == (App { cursor: a.cursor_after(0, -1), ..a }) && r.len() == 0,
            KeyCode::Left => b == (App { cursor: a.cursor_after(-1, 0), ..a }) && r.len() == 0,
            KeyCode::Right => b == (App { cursor: a.cursor_after(1, 0), ..a }) && r.len() == 0,
            KeyCode::Enter => match a.cursor {
                Some(c) => if over {
                    b == a && r.len() == 0
                } else {
                    match a.selected {
                        Some(sel) => if sel == c {
                            b == (App { selected: None, ..a }) && r.len() == 0
                        } else {
                            App::attempt_move_outcome(a, b, r, c)
                        },
                        None => if (a.session matches Some(s) && s.my_turn_spec() && has_moves_from(
                            s.pos(),
                            c,
                        )) {
                            b == (App { selected: Some(c), ..a }) && r.len() == 0
                        } else {
                            b == a && r.len() == 0
                        },
                    }
                },
                None => b == a && r.len() == 0,
            },
            KeyCode::Esc => if over {
                App::left(a, b, r, false)
            } else {
                b == (App { modal: Some(Modal::GameMenu { sel: 0 }), ..a }) && r.len() == 0
            },
            KeyCode::Tab => b == (App { view_flip: !a.view_flip, ..a }) && r.len() == 0,
            KeyCode::Char('d') | KeyCode::Char('D') => App::offer_draw_outcome(a, b, r),
            _ => b == a && r.len() == 0,
        }
    }

    /// The history list, with `len` stored games.
    pub open spec fn history_outcome(a: App, b: App, r: Seq<Effect>, code: KeyCode, len: usize) -> bool {
        match code {
            KeyCode::Up => if len > 0 {
                b == (App { history_sel: ((a.history_sel + len - 1) % (len as int)) as usize, ..a })
                    && r.len() == 0
            } else {
                b == a && r.len() == 0
            },
            KeyCode::Down => if len > 0 {
                b == (App { history_sel: ((a.history_sel + 1) % (len as int)) as usize, ..a })
                    && r.len() == 0
            } else {
                b == a && r.len() == 0
            },
            KeyCode::Enter => if a.history is Some {
                b == a && r == seq![Effect::LoadReplay(a.history_sel)]
            } else {
                b == a && r.len() == 0
            },
            KeyCode::Char('d') | KeyCode::Char('D') => if len > 0 {
                b == (App { modal: Some(Modal::DeleteConfirm { sel: 0 }), ..a }) && r.len() == 0
            } else {
                b == a && r.len() == 0
            },
            KeyCode::Esc => b == (App { screen: Screen::Menu, ..a }) && r.len() == 0,
            _ => b == a && r.len() == 0,
        }
    }

    /// The replay screen.
    pub open spec fn replay_outcome(a: App, b: App, r: Seq<Effect>, code: KeyCode) -> bool {
        &&& r.len() == 0
        &&& match a.replay {
            None => b == (App { screen: Screen::History, ..a }),
            Some(rp) => match code {
                KeyCode::Left | KeyCode::Backspace => b.replay matches Some(nr) && Replay::prev_spec(
                    rp,
                    nr,
                    rp.idx > 0,
                ) && b == (App { replay: b.replay, ..a }),
                KeyCode::Right | KeyCode::Char(' ') | KeyCode::Enter => b.replay matches Some(nr)
                    && Replay::next_spec(rp, nr, advances(rp)) && b == (App { replay: b.replay, ..a }),
                KeyCode::Home => b.replay matches Some(nr) && nr.sans_view() == rp.sans_view()
                    && nr.idx == 0 && nr.pos() == start_fen() && b == (App { replay: b.replay, ..a }),
                KeyCode::End => b.replay matches Some(nr) && nr.sans_view() == rp.sans_view()
                    && nr.idx == replay_line(rp.sans_view(), rp.sans_view().len()).1 && nr.pos()
                    == replay_line(rp.sans_view(), rp.sans_view().len()).0 && b == (App {
                    replay: b.replay,
                    ..a
                }),
                KeyCode::Esc => b == (App { replay: None, screen: Screen::History, ..a }),
                _ => b == a,
            },
        }
    }

    /// The settings screen with its value under the selection changed.
    pub open spec fn setting_changed(a: App) -> App {
        let c = a.config;
        if a.settings_sel == 0 {
            App { settings_editing_name: true, ..a }
        } else if a.settings_sel == 1 {
            App { config: Config { piece_style: next_piece_style(c.piece_style), ..c }, ..a }
        } else if a.settings_sel == 2 {
            App { config: Config { show_coordinates: !c.show_coordinates, ..c }, ..a }
        } else if a.settings_sel == 3 {
            App { config: Config { show_hints: next_hint_style(c.show_hints), ..c }, ..a }
        } else if a.settings_sel == 4 {
            let p = next_preset(c.tc_base_secs, c.tc_inc_secs);
            App { config: Config { tc_base_secs: p.base_secs, tc_inc_secs: p.inc_secs, ..c }, ..a }
        } else if a.settings_sel == 5 {
            App { config: Config { flip_board: !c.flip_board, ..c }, ..a }
        } else {
            App { screen: Screen::Menu, ..a }
        }
    }

    /// The settings screen. While the name is edited, keys edit it (at most
    /// 20 characters, no control characters); otherwise they move the
    /// selection and change values. Every change is saved.
    pub open spec fn settings_outcome(a: App, b: App, r: Seq<Effect>, code: KeyCode) -> bool {
        let name = a.config.player_name@;
        if a.settings_editing_name {
            match code {
                KeyCode::Enter | KeyCode::Esc => b == (App { settings_editing_name: false, ..a }) && r
                    == seq![Effect::SaveConfig],
                KeyCode::Backspace => {
                    &&& b.config.player_name@ == (if name.len() > 0 {
                        name.drop_last()
                    } else {
                        name
                    })
                    &&& b == (App {
                        config: Config { player_name: b.config.player_name, ..a.config },
                        ..a
                    })
                    &&& r.len() == 0
                },
                KeyCode::Char(ch) => if !is_control_spec(ch) && name.len() < 20 {
                    &&& b.config.player_name@ == name.push(ch)
                    &&& b == (App {
                        config: Config { player_name: b.config.player_name, ..a.config },
                        ..a
                    })
                    &&& r.len() == 0
                } else {
                    b == a && r.len() == 0
                },
                _ => b == a && r.len() == 0,
            }
        } else {
            let mid = match code {
                KeyCode::Up => App { settings_sel: ((a.settings_sel + 6) % 7) as usize, ..a },
                KeyCode::Down => App { settings_sel: ((a.settings_sel + 1) % 7) as usize, ..a },
                KeyCode::Enter | KeyCode::Left | KeyCode::Right => App::setting_changed(a),
                KeyCode::Esc => App { screen: Screen::Menu, ..a },
                _ => a,
            };
            &&& b == mid
            &&& r == (if mid.screen == Screen::Settings {
                seq![Effect::SaveConfig]
            } else {
                seq![]
            })
        }
    }

    /// The help screen: Esc, q or Enter go back to the menu.
    pub open spec fn help_outcome(a: App, b: App, r: Seq<Effect>, code: KeyCode) -> bool {
        &&& r.len() == 0
        &&& match code {
            KeyCode::Esc | KeyCode::Char('q') | KeyCode::Char('Q') | KeyCode::Enter => b == (App {
                screen: Screen::Menu,
                ..a
            }),
            _ => b == a,
        }
    }

    /// The outcome of a key on the current screen, with no dialog open.
    pub open spec fn screen_outcome(
        a: App,
        b: App,
        r: Seq<Effect>,
        code: KeyCode,
        peers: Seq<PeerInfo>,
        history_len: usize,
    ) -> bool {
        match a.screen {
            Screen::Menu => App::menu_outcome(a, b, r, code),
            Screen::Lobby => App::lobby_outcome(a, b, r, code, peers),
            Screen::LocalSetup => App::setup_outcome(a, b, r, code),
            Screen::Playing => App::game_outcome(a, b, r, code),
            Screen::History => App::history_outcome(a, b, r, code, history_len),
            Screen::Replay => App::replay_outcome(a, b, r, code),
            Screen::Settings => App::settings_outcome(a, b, r, code),
            Screen::Help => App::help_outcome(a, b, r, code),
        }
    }

    /// The outcome of a key: only presses count; Ctrl+C quits at once;
    /// otherwise an open dialog takes the key, else the current screen.
    pub open spec fn key_outcome(
        a: App,
        b: App,
        r: Seq<Effect>,
        key: Key,
        peers: Seq<PeerInfo>,
        history_len: usize,
    ) -> bool {
        if !key.press {
            b == a && r.len() == 0
        } else if key.ctrl && key.code == KeyCode::Char('c') {
            b == (App { quit: true, ..a }) && r.len() == 0
        } else {
            match a.modal {
                Some(m) => App::modal_outcome(App { modal: None, ..a }, m, key, b, r),
                None => App::screen_outcome(a, b, r, key.code, peers, history_len),
            }
        }
    }
}

/// Handle one key. `peers` are the players listed in the lobby and
/// `history_len` the number of stored games.
pub fn handle_key(app: &mut App, key: Key, peers: &Vec<PeerInfo>, history_len: usize) -> (r: Vec<Effect>)
    requires
        old(app).inv(),
        key.code == KeyCode::Enter ==> old(app).credit_ok(),
    ensures
        final(app).inv(),
        App::key_outcome(*old(app), *final(app), r@, key, peers@, history_len),
{
    if !key.press {
        return Vec::new();
    }
    if key.ctrl && key.code == KeyCode::Char('c') {
        app.quit = true;
        return Vec::new();
    }
    match app.modal.take() {
        Some(modal) => handle_modal_key(app, modal, key),
        None => match app.screen {
            Screen::Menu => handle_menu_key(app, key),
            Screen::Lobby => handle_lobby_key(app, key, peers),
            Screen::LocalSetup => handle_setup_key(app, key),
            Screen::Playing => handle_game_key(app, key),
            Screen::History => handle_history_key(app, key, history_len),
            Screen::Replay => handle_replay_key(app, key),
            Screen::Settings => handle_settings_key(app, key),
            Screen::Help => handle_help_key(app, key),
        },
    }
}

/// Handle a key while the dialog `modal` is open (it has been taken off
/// `app`; see `App::modal_outcome`).
pub fn handle_modal_key(app: &mut App, modal: Modal, key: Key) -> (r: Vec<Effect>)
    requires
        old(app).inv(),
        key.code == KeyCode::Enter ==> old(app).credit_ok(),
        old(app).modal is None,
        crate::app::modal_ok(Some(modal)),
    ensures
        final(app).inv(),
        App::modal_outcome(*old(app), modal, key, *final(app), r@),
{
    match modal {
        Modal::Promotion { from, to, sel } => promotion_key(app, from, to, sel, key),
        Modal::GameMenu { sel } => game_menu_key(app, sel, key),
        Modal::GameOver => {
            if key.code == KeyCode::Enter {
                app.leave_game(false)
            } else {
                Vec::new()
            }
        },
        Modal::DrawIncoming => draw_incoming_key(app, key),
        Modal::IncomingInvite { sel } => incoming_invite_key(app, sel, key),
        Modal::InviteWait { .. } => {
            let mut eff: Vec<Effect> = Vec::new();
            if key.code == KeyCode::Esc {
                if app.conn_open {
                    eff.push(Effect::Send(GameMsg::Bye));
                    eff.push(Effect::CloseConn);
                }
                app.conn_open = false;
                assert(eff@ =~= (if old(app).conn_open {
                    seq![Effect::Send(GameMsg::Bye), Effect::CloseConn]
                } else {
                    seq![]
                }));
            }
            eff
        },
        Modal::Info { .. } => Vec::new(),
        Modal::LeaveConfirm { sel } => {
            match key.code {
                KeyCode::Left | KeyCode::Right => {
                    app.modal = Some(Modal::LeaveConfirm { sel: 1 - sel });
                    Vec::new()
                },
                KeyCode::Enter => {
                    if sel == 0 {
                        app.leave_game(true)
                    } else {
                        Vec::new()
                    }
                },
                _ => Vec::new(),
            }
        },
        Modal::QuitConfirm { sel } => {
            match key.code {
                KeyCode::Left | KeyCode::Right => {
                    app.modal = Some(Modal::QuitConfirm { sel: 1 - sel });
                },
                KeyCode::Enter => {
                    if sel == 0 {
                        app.quit = true;
                    }
                },
                _ => {},
            }
            Vec::new()
        },
        Modal::DeleteConfirm { sel } => {
            match key.code {
                KeyCode::Left | KeyCode::Right => {
                    app.modal = Some(Modal::DeleteConfirm { sel: 1 - sel });
                    Vec::new()
                },
                KeyCode::Enter => {
                    if sel == 0 {
                        delete_history_entry(app)
                    } else {
                        Vec::new()
                    }
                },
                _ => Vec::new(),
            }
        },
    }
}

fn promotion_key(app: &mut App, from: u8, to: u8, sel: usize, key: Key) -> (r: Vec<Effect>)
    requires
        old(app).inv(),
        key.code == KeyCode::Enter ==> old(app).credit_ok(),
        old(app).modal is None,
        from < 64 && to < 64 && sel < 4,
    ensures
        final(app).inv(),
        App::modal_outcome(*old(app), Modal::Promotion { from, to, sel }, key, *final(app), r@),
{
    match key.code {
        KeyCode::Left | KeyCode::Up => {
            app.modal = Some(Modal::Promotion { from, to, sel: (sel + 3) % 4 });
            Vec::new()
        },
        KeyCode::Right | KeyCode::Down => {
            app.modal = Some(Modal::Promotion { from, to, sel: (sel + 1) % 4 });
            Vec::new()
        },
        KeyCode::Enter => {
            app.modal = Some(Modal::Promotion { from, to, sel });
            app.attempt_promotion(promo_piece(sel))
        },
        KeyCode::Esc => {
            app.selected = None;
            Vec::new()
        },
        _ => {
            app.modal = Some(Modal::Promotion { from, to, sel });
            Vec::new()
        },
    }
}

fn game_menu_key(app: &mut App, sel: usize, key: Key) -> (r: Vec<Effect>)
    requires
        old(app).inv(),
        old(app).modal is None,
        sel < 4,
    ensures
        final(app).inv(),
        App::modal_outcome(*old(app), Modal::GameMenu { sel }, key, *final(app), r@),
{
    match key.code {
        KeyCode::Up => {
            app.modal = Some(Modal::GameMenu { sel: (sel + 3) % 4 });
            Vec::new()
        },
        KeyCode::Down => {
            app.modal = Some(Modal::GameMenu { sel: (sel + 1) % 4 });
            Vec::new()
        },
        KeyCode::Esc => Vec::new(),
        KeyCode::Enter => {
            if sel == 0 {
                Vec::new()
            } else if sel == 1 {
                app.offer_draw()
            } else if sel == 2 {
                app.leave_game(true)
            } else {
                app.modal = Some(Modal::LeaveConfirm { sel: 0 });
                Vec::new()
            }
        },
        _ => {
            app.modal = Some(Modal::GameMenu { sel });
            Vec::new()
        },
    }
}

fn draw_incoming_key(app: &mut App, key: Key) -> (r: Vec<Effect>)
    requires
        old(app).inv(),
        old(app).modal is None,
    ensures
        final(app).inv(),
        App::modal_outcome(*old(app), Modal::DrawIncoming, key, *final(app), r@),
{
    match key.code {
        KeyCode::Enter | KeyCode::Char('y') | KeyCode::Char('Y') => accept_offered_draw(app),
        KeyCode::Esc | KeyCode::Char('n') | KeyCode::Char('N') => {
            match app.session.take() {
                Some(s) => {
                    let mut s = s;
                    s.decline_draw();
                    app.session = Some(s);
                },
                None => {},
            }
            let mut eff: Vec<Effect> = Vec::new();
            if app.conn_open {
                eff.push(Effect::Send(GameMsg::DrawDecline));
            }
            assert(eff@ =~= (if old(app).conn_open {
                seq![Effect::Send(GameMsg::DrawDecline)]
            } else {
                seq![]
            }));
            eff
        },
        _ => Vec::new(),
    }
}

/// Accept the opponent's draw offer (see `App::draw_accepted`).
fn accept_offered_draw(app: &mut App) -> (r: Vec<Effect>)
    requires
        old(app).inv(),
    ensures
        final(app).inv(),
        App::draw_accepted(*old(app), *final(app), r@),
{
    let mut eff: Vec<Effect> = Vec::new();
    if app.conn_open {
        eff.push(Effect::Send(GameMsg::DrawAccept));
    }
    let mut rest = match app.session.take() {
        Some(s) => {
            let mut s = s;
            s.accept_draw();
            app.session = Some(s);
            app.finalize_if_over()
        },
        None => app.finalize_if_over(),
    };
    let ghost rest_v = rest@;
    eff.append(&mut rest);
    proof {
        let k: int = if old(app).conn_open { 1 } else { 0 };
        assert(eff@.skip(k) =~= rest_v);
    }
    eff
}

fn incoming_invite_key(app: &mut App, sel: usize, key: Key) -> (r: Vec<Effect>)
    requires
        old(app).inv(),
        old(app).modal is None,
        sel < 2,
    ensures
        final(app).inv(),
        App::modal_outcome(*old(app), Modal::IncomingInvite { sel }, key, *final(app), r@),
{
    match key.code {
        KeyCode::Left | KeyCode::Right => {
            app.modal = Some(Modal::IncomingInvite { sel: 1 - sel });
            Vec::new()
        },
        KeyCode::Enter => {
            if sel == 0 {
                let mut eff: Vec<Effect> = Vec::new();
                if app.pending_open {
                    eff.push(Effect::SendPending(GameMsg::Accept));
                }
                app.toast("waiting for the game to start...");
                assert(eff@ =~= (if old(app).pending_open {
                    seq![Effect::SendPending(GameMsg::Accept)]
                } else {
                    seq![]
                }));
                eff
            } else {
                app.decline_invite()
            }
        },
        KeyCode::Esc => app.decline_invite(),
        _ => Vec::new(),
    }
}

/// Delete the selected history entry (see `App::delete_outcome`).
fn delete_history_entry(app: &mut App) -> (r: Vec<Effect>)
    ensures
        App::delete_outcome(*old(app), *final(app), r@),
{
    if app.history.is_some() {
        let mut eff: Vec<Effect> = Vec::new();
        eff.push(Effect::DeleteHistory(app.history_sel));
        assert(eff@ =~= seq![Effect::DeleteHistory(old(app).history_sel)]);
        eff
    } else {
        app.after_delete(0);
        Vec::new()
    }
}

fn handle_menu_key(app: &mut App, key: Key) -> (r: Vec<Effect>)
    requires
        old(app).inv(),
    ensures
        final(app).inv(),
        App::menu_outcome(*old(app), *final(app), r@, key.code),
{
    match key.code {
        KeyCode::Up => {
            app.menu_sel = (app.menu_sel + 5) % 6;
            Vec::new()
        },
        KeyCode::Down => {
            app.menu_sel = (app.menu_sel + 1) % 6;
            Vec::new()
        },
        KeyCode::Enter | KeyCode::Char(' ') => {
            if app.menu_sel == 0 {
                app.setup_tc = app.config.default_tc();
                app.screen = Screen::LocalSetup;
                app.setup_sel = 0;
                Vec::new()
            } else if app.menu_sel == 1 {
                app.screen = Screen::Lobby;
                app.lobby_sel = 0;
                app.lobby_status = String::new();
                let mut eff: Vec<Effect> = Vec::new();
                eff.push(Effect::RefreshPeers);
                assert(eff@ =~= seq![Effect::RefreshPeers]);
                eff
            } else if app.menu_sel == 2 {
                app.screen = Screen::History;
                app.history_sel = 0;
                Vec::new()
            } else if app.menu_sel == 3 {
                app.screen = Screen::Settings;
                app.settings_sel = 0;
                app.settings_editing_name = false;
                Vec::new()
            } else if app.menu_sel == 4 {
                app.screen = Screen::Help;
                Vec::new()
            } else {
                app.modal = Some(Modal::QuitConfirm { sel: 0 });
                Vec::new()
            }
        },
        KeyCode::Char('q') | KeyCode::Char('Q') | KeyCode::Esc => {
            app.modal = Some(Modal::QuitConfirm { sel: 0 });
            Vec::new()
        },
        _ => Vec::new(),
    }
}

/// `(x + n - 1) % n` without leaving the range of `usize`.
fn step_back(x: usize, n: usize) -> (r: usize)
    requires
        n > 0,
    ensures
        r == (x + n - 1) % (n as int),
{
    let s = x % n;
    assert((x + n - 1) % (n as int) == if s == 0 { n - 1 } else { s - 1 }) by {
        vstd::arithmetic::div_mod::lemma_fundamental_div_mod(x as int, n as int);
        let q = x as int / n as int;
        assert(x + n - 1 == n * q + (s + n - 1));
        vstd::arithmetic::div_mod::lemma_mod_multiples_vanish(q, (s + n - 1) as int, n as int);
        if s == 0 {
            vstd::arithmetic::div_mod::lemma_small_mod((n - 1) as nat, n as nat);
        } else {
            vstd::arithmetic::div_mod::lemma_mod_add_multiples_vanish((s - 1) as int, n as int);
            vstd::arithmetic::div_mod::lemma_small_mod((s - 1) as nat, n as nat);
        }
    }
    if s == 0 {
        n - 1
    } else {
        s - 1
    }
}

/// `(x + 1) % n` without leaving the range of `usize`.
fn step_forward(x: usize, n: usize) -> (r: usize)
    requires
        n > 0,
    ensures
        r == (x + 1) % (n as int),
{
    let s = x % n;
    assert((x + 1) % (n as int) == if s + 1 == n { 0 } else { s + 1 }) by {
        vstd::arithmetic::div_mod::lemma_fundamental_div_mod(x as int, n as int);
        let q = x as int / n as int;
        assert(x + 1 == n * q + (s + 1));
        vstd::arithmetic::div_mod::lemma_mod_multiples_vanish(q, (s + 1) as int, n as int);
        if s + 1 == n {
            vstd::arithmetic::div_mod::lemma_mod_self_0(n as int);
        } else {
            vstd::arithmetic::div_mod::lemma_small_mod((s + 1) as nat, n as nat);
        }
    }
    if s + 1 == n {
        0
    } else {
        s + 1
    }
}

fn handle_lobby_key(app: &mut App, key: Key, peers: &Vec<PeerInfo>) -> (r: Vec<Effect>)
    requires
        old(app).inv(),
    ensures
        final(app).inv(),
        App::lobby_outcome(*old(app), *final(app), r@, key.code, peers@),
{
    let n = peers.len();
    match key.code {
        KeyCode::Up => {
            if n > 0 {
                app.lobby_sel = step_back(app.lobby_sel, n);
            }
            Vec::new()
        },
        KeyCode::Down => {
            if n > 0 {
                app.lobby_sel = step_forward(app.lobby_sel, n);
            }
            Vec::new()
        },
        KeyCode::Char('r') | KeyCode::Char('R') => {
            let mut eff: Vec<Effect> = Vec::new();
            eff.push(Effect::RefreshPeers);
            assert(eff@ =~= seq![Effect::RefreshPeers]);
            eff
        },
        KeyCode::Enter => {
            if app.lobby_sel >= n {
                return Vec::new();
            }
            let peer = &peers[app.lobby_sel];
            if peer.status == PeerStatus::Playing {
                let mut text = chars_of(peer.name.as_str());
                push_all(&mut text, &chars_of(" is already playing"));
                app.lobby_status = string_of(&text);
                return Vec::new();
            }
            app.invite_peer = Some(peer.name.clone());
            app.invite_tc = app.config.default_tc();
            let mut eff: Vec<Effect> = Vec::new();
            eff.push(Effect::Dial(app.lobby_sel));
            assert(eff@ =~= seq![Effect::Dial(old(app).lobby_sel)]);
            eff
        },
        KeyCode::Esc => {
            app.screen = Screen::Menu;
            Vec::new()
        },
        _ => Vec::new(),
    }
}

/// Move the setup value under the selection one step right or left.
fn cycle_setup(app: &mut App, right: bool)
    requires
        old(app).inv(),
    ensures
        final(app).inv(),
        *final(app) == App::setup_cycled(*old(app), right),
{
    if app.setup_sel == 0 {
        let all = ColorChoice::all();
        let idx: usize = match app.setup_color {
            ColorChoice::White => 0,
            ColorChoice::Black => 1,
            ColorChoice::Random => 2,
        };
        let step: usize = if right {
            1
        } else {
            2
        };
        app.setup_color = all[(idx + step) % 3];
    } else if app.setup_sel == 1 {
        let presets = TimeControl::presets();
        let mut idx: usize = 0;
        let mut i: usize = 0;
        let mut found = false;
        while i < 4
            invariant
                i <= 4,
                presets@ == TimeControl::presets_spec(),
                !found ==> idx == 0 && forall|k: int| 0 <= k < i ==> presets@[k] != app.setup_tc,
                found ==> idx < 4 && presets@[idx as int] == app.setup_tc,
            decreases 4 - i,
        {
            if !found && presets[i].base_secs == app.setup_tc.base_secs && presets[i].inc_secs
                == app.setup_tc.inc_secs {
                idx = i;
                found = true;
            }
            i = i + 1;
        }
        proof {
            let p = TimeControl::presets_spec();
            if found {
                assert(exists|j: int| 0 <= j < 4 && p[j] == app.setup_tc);
                let c = choose|j: int| 0 <= j < 4 && p[j] == app.setup_tc;
                assert(c == idx);
            }
        }
        let step: usize = if right {
            1
        } else {
            3
        };
        app.setup_tc = presets[(idx + step) % 4];
    }
}

fn handle_setup_key(app: &mut App, key: Key) -> (r: Vec<Effect>)
    requires
        old(app).inv(),
    ensures
        final(app).inv(),
        App::setup_outcome(*old(app), *final(app), r@, key.code),
{
    match key.code {
        KeyCode::Up => {
            app.setup_sel = (app.setup_sel + 2) % 3;
        },
        KeyCode::Down => {
            app.setup_sel = (app.setup_sel + 1) % 3;
        },
        KeyCode::Left => cycle_setup(app, false),
        KeyCode::Right => cycle_setup(app, true),
        KeyCode::Enter => {
            if app.setup_sel < 2 {
                cycle_setup(app, true);
            } else {
                app.start_local_game();
            }
        },
        KeyCode::Esc => {
            app.screen = Screen::Menu;
        },
        _ => {},
    }
    Vec::new()
}

fn handle_game_key(app: &mut App, key: Key) -> (r: Vec<Effect>)
    requires
        old(app).inv(),
        key.code == KeyCode::Enter ==> old(app).credit_ok(),
    ensures
        final(app).inv(),
        App::game_outcome(*old(app), *final(app), r@, key.code),
{
    let over = match &app.session {
        Some(s) => s.is_over(),
        None => false,
    };
    match key.code {
        KeyCode::Up => {
            app.move_cursor(0, 1);
            Vec::new()
        },
        KeyCode::Down => {
            app.move_cursor(0, -1);
            Vec::new()
        },
        KeyCode::Left => {
            app.move_cursor(-1, 0);
            Vec::new()
        },
        KeyCode::Right => {
            app.move_cursor(1, 0);
            Vec::new()
        },
        KeyCode::Enter => {
            let cursor = match app.cursor {
                Some(c) => c,
                None => return Vec::new(),
            };
            if over {
                return Vec::new();
            }
            match app.selected {
                Some(sel) => {
                    if sel == cursor {
                        app.selected = None;
                        Vec::new()
                    } else {
                        app.attempt_move(cursor)
                    }
                },
                None => {
                    let can = match &app.session {
                        Some(s) => {
                            if s.is_my_turn() {
                                let t = s.legal_targets(cursor);
                                proof {
                                    if has_moves_from(s.pos(), cursor) {
                                        let k = choose|k: int|
                                            0 <= k < spec_legal_moves(s.pos()).len() && (#[trigger] spec_legal_moves(
                                                s.pos(),
                                            )[k]).from == cursor;
                                        assert(t@.contains(spec_legal_moves(s.pos())[k].to));
                                    }
                                    if t@.len() > 0 {
                                        assert(t@.contains(t@[0]));
                                    }
                                }
                                t.len() > 0
                            } else {
                                false
                            }
                        },
                        None => false,
                    };
                    if can {
                        app.selected = Some(cursor);
                    }
                    Vec::new()
                },
            }
        },
        KeyCode::Esc => {
            if over {
                app.leave_game(false)
            } else {
                app.modal = Some(Modal::GameMenu { sel: 0 });
                Vec::new()
            }
        },
        KeyCode::Tab => {
            app.view_flip = !app.view_flip;
            Vec::new()
        },
        KeyCode::Char('d') | KeyCode::Char('D') => app.offer_draw(),
        _ => Vec::new(),
    }
}

fn handle_history_key(app: &mut App, key: Key, len: usize) -> (r: Vec<Effect>)
    requires
        old(app).inv(),
    ensures
        final(app).inv(),
        App::history_outcome(*old(app), *final(app), r@, key.code, len),
{
    match key.code {
        KeyCode::Up => {
            if len > 0 {
                app.history_sel = step_back(app.history_sel, len);
            }
            Vec::new()
        },
        KeyCode::Down => {
            if len > 0 {
                app.history_sel = step_forward(app.history_sel, len);
            }
            Vec::new()
        },
        KeyCode::Enter => {
            let mut eff: Vec<Effect> = Vec::new();
            if app.history.is_some() {
                eff.push(Effect::LoadReplay(app.history_sel));
                assert(eff@ =~= seq![Effect::LoadReplay(old(app).history_sel)]);
            }
            eff
        },
        KeyCode::Char('d') | KeyCode::Char('D') => {
            if len > 0 {
                app.modal = Some(Modal::DeleteConfirm { sel: 0 });
            }
            Vec::new()
        },
        KeyCode::Esc => {
            app.screen = Screen::Menu;
            Vec::new()
        },
        _ => Vec::new(),
    }
}

fn handle_replay_key(app: &mut App, key: Key) -> (r: Vec<Effect>)
    requires
        old(app).inv(),
    ensures
        final(app).inv(),
        App::replay_outcome(*old(app), *final(app), r@, key.code),
{
    let mut rp = match app.replay.take() {
        Some(rp) => rp,
        None => {
            app.screen = Screen::History;
            return Vec::new();
        },
    };
    let ghost r0 = rp;
    match key.code {
        KeyCode::Left | KeyCode::Backspace => {
            let moved = rp.prev();
            assert(Replay::prev_spec(r0, rp, moved));
            app.replay = Some(rp);
        },
        KeyCode::Right | KeyCode::Char(' ') | KeyCode::Enter => {
            let moved = rp.next();
            assert(Replay::next_spec(r0, rp, moved));
            app.replay = Some(rp);
        },
        KeyCode::Home => {
            rp.first();
            app.replay = Some(rp);
        },
        KeyCode::End => {
            rp.last();
            app.replay = Some(rp);
        },
        KeyCode::Esc => {
            app.screen = Screen::History;
        },
        _ => {
            app.replay = Some(rp);
        },
    }
    let r: Vec<Effect> = Vec::new();
    assert(r@.len() == 0);
    r
}

/// The name without its last character.
fn drop_last_char(s: &String) -> (r: String)
    ensures
        r@ == (if s@.len() > 0 {
            s@.drop_last()
        } else {
            s@
        }),
{
    let mut v = chars_of(s.as_str());
    if v.len() > 0 {
        let _ = v.pop();
    }
    string_of(&v)
}

fn handle_settings_key(app: &mut App, key: Key) -> (r: Vec<Effect>)
    requires
        old(app).inv(),
    ensures
        final(app).inv(),
        App::settings_outcome(*old(app), *final(app), r@, key.code),
{
    if app.settings_editing_name {
        return edit_name_key(app, key);
    }
    match key.code {
        KeyCode::Up => {
            app.settings_sel = (app.settings_sel + 6) % 7;
        },
        KeyCode::Down => {
            app.settings_sel = (app.settings_sel + 1) % 7;
        },
        KeyCode::Enter | KeyCode::Left | KeyCode::Right => change_setting(app),
        KeyCode::Esc => {
            app.screen = Screen::Menu;
        },
        _ => {},
    }
    let mut eff: Vec<Effect> = Vec::new();
    if app.screen == Screen::Settings {
        eff.push(Effect::SaveConfig);
        assert(eff@ =~= seq![Effect::SaveConfig]);
    }
    eff
}

/// Keys while the player name is edited.
fn edit_name_key(app: &mut App, key: Key) -> (r: Vec<Effect>)
    requires
        old(app).inv(),
        old(app).settings_editing_name,
    ensures
        final(app).inv(),
        App::settings_outcome(*old(app), *final(app), r@, key.code),
{
    match key.code {
        KeyCode::Enter | KeyCode::Esc => {
            app.settings_editing_name = false;
            let mut eff: Vec<Effect> = Vec::new();
            eff.push(Effect::SaveConfig);
            assert(eff@ =~= seq![Effect::SaveConfig]);
            eff
        },
        KeyCode::Backspace => {
            app.config.player_name = drop_last_char(&app.config.player_name);
            Vec::new()
        },
        KeyCode::Char(c) => {
            let count = chars_of(app.config.player_name.as_str()).len();
            if !is_control(c) && count < 20 {
                push_char(&mut app.config.player_name, c);
            }
            Vec::new()
        },
        _ => Vec::new(),
    }
}

/// Change the setting under the selection (see `App::setting_changed`).
#[verifier::spinoff_prover]
#[verifier::rlimit(40)]
fn change_setting(app: &mut App)
    requires
        old(app).inv(),
    ensures
        final(app).inv(),
        *final(app) == App::setting_changed(*old(app)),
{
    if app.settings_sel == 0 {
        app.settings_editing_name = true;
    } else if app.settings_sel == 1 {
        app.config.toggle_piece_style();
    } else if app.settings_sel == 2 {
        app.config.show_coordinates = !app.config.show_coordinates;
    } else if app.settings_sel == 3 {
        app.config.toggle_hints();
    } else if app.settings_sel == 4 {
        app.config.cycle_time_control();
    } else if app.settings_sel == 5 {
        app.config.flip_board = !app.config.flip_board;
    } else {
        app.screen = Screen::Menu;
    }
}

fn handle_help_key(app: &mut App, key: Key) -> (r: Vec<Effect>)
    requires
        old(app).inv(),
    ensures
        final(app).inv(),
        App::help_outcome(*old(app), *final(app), r@, key.code),
{
    match key.code {
        KeyCode::Esc | KeyCode::Char('q') | KeyCode::Char('Q') | KeyCode::Enter => {
            app.screen = Screen::Menu;
        },
        _ => {},
    }
    Vec::new()
}

/// In the main menu, Up undoes Down: the selection comes back and nothing
/// is asked of the outside.
pub proof fn law_menu_up_undoes_down(
    a: App,
    b: App,
    c: App,
    rb: Seq<Effect>,
    rc: Seq<Effect>,
    peers: Seq<PeerInfo>,
    n: usize,
)
    requires
        a.inv(),
        a.modal is None,
        a.screen == Screen::Menu,
        App::key_outcome(a, b, rb, Key { code: KeyCode::Down, ctrl: false, press: true }, peers, n),
        App::key_outcome(b, c, rc, Key { code: KeyCode::Up, ctrl: false, press: true }, peers, n),
    ensures
        c == a,
        rb.len() == 0 && rc.len() == 0,
{
}

/// On the game screen, Tab twice restores the orientation (and all else).
pub proof fn law_tab_twice_restores(
    a: App,
    b: App,
    c: App,
    rb: Seq<Effect>,
    rc: Seq<Effect>,
    peers: Seq<PeerInfo>,
    n: usize,
)
    requires
        a.modal is None,
        a.screen == Screen::Playing,
        App::key_outcome(a, b, rb, Key { code: KeyCode::Tab, ctrl: false, press: true }, peers, n),
        App::key_outcome(b, c, rc, Key { code: KeyCode::Tab, ctrl: false, press: true }, peers, n),
    ensures
        c == a,
        b.flipped_spec() != a.flipped_spec(),
{
}

/// Editing the player name on the settings screen, as one key press does it
/// (`handle_key`): the name never grows past 20 characters; a character is
/// added exactly when it is no control character and the name is shorter
/// than 20; Backspace takes off the last character; Enter and Esc end the
/// editing.
pub proof fn law_name_edit(
    a: App,
    b: App,
    r: Seq<Effect>,
    key: Key,
    peers: Seq<PeerInfo>,
    history_len: usize,
)
    requires
        a.screen == Screen::Settings,
        a.modal is None,
        a.settings_editing_name,
        a.config.player_name@.len() <= 20,
        key.press,
        !key.ctrl,
        App::key_outcome(a, b, r, key, peers, history_len),
    ensures
        b.config.player_name@.len() <= 20,
        key.code matches KeyCode::Char(c) ==> if !is_control_spec(c) && a.config.player_name@.len()
            < 20 {
            b.config.player_name@ == a.config.player_name@.push(c) && b.settings_editing_name
        } else {
            b == a
        },
        key.code == KeyCode::Backspace ==> b.config.player_name@ == (if a.config.player_name@.len()
            > 0 {
            a.config.player_name@.drop_last()
        } else {
            a.config.player_name@
        }) && b.settings_editing_name,
        key.code == KeyCode::Enter || key.code == KeyCode::Esc ==> !b.settings_editing_name
            && b.config == a.config,
{
}

/// On the game screen, a cursor step that moved the cursor is undone by
/// the opposite step, whatever the orientation.
pub proof fn law_cursor_step_back(
    a: App,
    b: App,
    c: App,
    rb: Seq<Effect>,
    rc: Seq<Effect>,
    peers: Seq<PeerInfo>,
    n: usize,
)
    requires
        a.inv(),
        a.modal is None,
        a.screen == Screen::Playing,
        App::key_outcome(a, b, rb, Key { code: KeyCode::Right, ctrl: false, press: true }, peers, n),
        App::key_outcome(b, c, rc, Key { code: KeyCode::Left, ctrl: false, press: true }, peers, n),
        b.cursor != a.cursor,
    ensures
        c == a,
{
    let sq = a.cursor->0;
    assert(crate::game::san::file_of(sq) == sq % 8 && crate::game::san::rank_of(sq) == sq / 8);
}

} // verus!
