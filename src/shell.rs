//! The decisions of the relay: what each terminal event and each read from
//! the console server does, in menu mode and in relay mode. Performing the
//! reads and writes is left to the caller.
use vstd::prelude::*;

use crate::history::{History, HistoryView};
use crate::scan::{LF, BACKSPACE};
use crate::telnet::{naws_bytes, naws_message, ttype_bytes, ttype_message};

verus! {

/// A key of the terminal.
#[derive(Clone, Copy, Debug, PartialEq, Eq, Structural)]
pub enum Key {
    Char(char),
    Enter,
    Esc,
    Tab,
    Backspace,
    Delete,
    Up,
    Down,
    Left,
    Right,
    Other,
}

/// The modifier keys held with a key: none, exactly one of Shift, Alt and
/// Control, or any other combination.
#[derive(Clone, Copy, Debug, PartialEq, Eq, Structural)]
pub enum Mods {
    Plain,
    Shift,
    Alt,
    Ctrl,
    Other,
}

/// An event of the terminal.
#[derive(Clone, Copy, Debug, PartialEq, Eq, Structural)]
pub enum Input {
    Key(Key, Mods),
    /// The terminal's new width and height, in characters.
    Resize(u16, u16),
    Other,
}

/// Whether the event loop goes on.
#[derive(Clone, Copy, Debug, PartialEq, Eq, Structural)]
pub enum Loop {
    Continue,
    Break,
}

/// A language of the messages shown.
#[derive(Clone, Copy, Debug, PartialEq, Eq, Structural)]
pub enum Lang {
    En,
    Ru,
}

/// A command of menu mode.
#[derive(Clone, Copy, Debug, PartialEq, Eq, Structural)]
pub enum MenuCommand {
    /// Go over to relay mode.
    EnterRelay,
    /// Clear the screen and draw the lists again.
    Redraw,
    /// Tell the console server the new window size, and draw again.
    Resize(u16, u16),
    SetLang(Lang),
    ToggleList,
    Copy,
    Down,
    Up,
    MoveUp,
    MoveDown,
    Delete,
    Undelete,
    Help,
    Quit,
}

/// What a terminal event did in menu mode.
pub struct MenuOutcome {
    /// Whether the event loop goes on.
    pub control: Loop,
    /// The command carried out, if the event is bound to one.
    pub command: Option<MenuCommand>,
    /// Bytes to send to the console server.
    pub send: Vec<u8>,
}

/// What a key does in relay mode.
#[derive(Clone, Copy, Debug, PartialEq, Eq, Structural)]
pub enum RelayAction {
    /// Send this byte to the console server.
    Send(u8),
    /// Tell the console server the new window size.
    Resize(u16, u16),
    /// Go back to menu mode.
    Exit,
}

/// What a terminal event did in relay mode.
pub struct RelayOutcome {
    /// The action bound to the event, if any.
    pub action: Option<RelayAction>,
    /// Bytes to send to the console server.
    pub send: Vec<u8>,
}

/// What becomes of bytes read from the console server.
#[derive(Clone, Copy, Debug, PartialEq, Eq, Structural)]
pub enum ReadAction {
    /// The server closed the connection: back to menu mode, and connect again.
    Reconnect,
    /// Show the bytes on the terminal: they have been scanned for commands.
    Echo,
    /// Drop the bytes: menu mode shows no server output.
    Discard,
}

/// The language asked for on the command line; `Sys` follows the system's.
#[derive(Clone, Copy, Debug, PartialEq, Eq, Structural)]
pub enum Locale {
    Sys,
    Ru,
    En,
}

/// The locale that a command-line value names.
pub open spec fn locale_named(s: Seq<char>) -> Option<Locale> {
    if s == seq!['e', 'n'] {
        Some(Locale::En)
    } else if s == seq!['r', 'u'] {
        Some(Locale::Ru)
    } else if s == seq!['s', 'y', 's'] {
        Some(Locale::Sys)
    } else {
        None
    }
}

/// Whether a system locale name is Russian: it begins with `ru`.
pub open spec fn is_russian(name: Seq<char>) -> bool {
    name.len() >= 2 && name[0] == 'r' && name[1] == 'u'
}

impl Locale {
    pub fn parse(s: &str) -> (r: Result<Locale, String>)
        ensures
            match locale_named(s@) {
                Some(l) => r == Ok::<Locale, String>(l),
                None => r is Err,
            },
            match r {
                Err(e) => e@ == "value must be 'en', 'ru' or 'sys'"@,
                Ok(_) => true,
            },
    {
        let n = s.unicode_len();
        if n == 2 {
            let a = s.get_char(0);
            let b = s.get_char(1);
            if a == 'e' && b == 'n' {
                proof {
                    assert(s@ =~= seq!['e', 'n']);
                }
                return Ok(Locale::En);
            } else if a == 'r' && b == 'u' {
                proof {
                    assert(s@ =~= seq!['r', 'u']);
                }
                return Ok(Locale::Ru);
            }
            proof {
                assert(s@ != seq!['e', 'n'] && s@ != seq!['r', 'u']) by {
                    if s@ == seq!['e', 'n'] || s@ == seq!['r', 'u'] {
                        assert(s@[0] == a && s@[1] == b);
                    }
                }
            }
        } else if n == 3 {
            let a = s.get_char(0);
            let b = s.get_char(1);
            let c = s.get_char(2);
            if a == 's' && b == 'y' && c == 's' {
                proof {
                    assert(s@ =~= seq!['s', 'y', 's']);
                }
                return Ok(Locale::Sys);
            }
            proof {
                assert(s@ != seq!['s', 'y', 's']) by {
                    if s@ == seq!['s', 'y', 's'] {
                        assert(s@[0] == a && s@[1] == b && s@[2] == c);
                    }
                }
            }
        }
        Err("value must be 'en', 'ru' or 'sys'".to_owned())
    }

    /// The language to show: the one named, or for `Sys` Russian where the
    /// system locale is Russian and English otherwise.
    pub fn lang(self, system: Option<&str>) -> (r: Lang)
        ensures
            r == match self {
                Locale::Ru => Lang::Ru,
                Locale::En => Lang::En,
                Locale::Sys => match system {
                    Some(name) => if is_russian(name@) {
                        Lang::Ru
                    } else {
                        Lang::En
                    },
                    None => Lang::En,
                },
            },
    {
        match self {
            Locale::Ru => Lang::Ru,
            Locale::En => Lang::En,
            Locale::Sys => match system {
                Some(name) => {
                    if name.unicode_len() >= 2 && name.get_char(0) == 'r' && name.get_char(1)
                        == 'u' {
                        Lang::Ru
                    } else {
                        Lang::En
                    }
                },
                None => Lang::En,
            },
        }
    }
}

impl std::str::FromStr for Locale {
    type Err = String;

    fn from_str(s: &str) -> Result<Locale, String> {
        Locale::parse(s)
    }
}

/// The keys of menu mode.
pub open spec fn menu_binding(ev: Input) -> Option<MenuCommand> {
    match ev {
        Input::Resize(w, h) => Some(MenuCommand::Resize(w, h)),
        Input::Key(Key::Char(c), Mods::Plain) => if c == 'i' {
            Some(MenuCommand::EnterRelay)
        } else if c == 't' {
            Some(MenuCommand::Redraw)
        } else if c == 'e' {
            Some(MenuCommand::SetLang(Lang::En))
        } else if c == 'r' {
            Some(MenuCommand::SetLang(Lang::Ru))
        } else if c == 'h' {
            Some(MenuCommand::Help)
        } else if c == 'q' {
            Some(MenuCommand::Quit)
        } else {
            None
        },
        Input::Key(Key::Char(c), Mods::Ctrl) => if c == 'u' {
            Some(MenuCommand::Undelete)
        } else {
            None
        },
        Input::Key(Key::Tab, Mods::Plain) => Some(MenuCommand::ToggleList),
        Input::Key(Key::Right, Mods::Plain) => Some(MenuCommand::Copy),
        Input::Key(Key::Down, Mods::Plain) => Some(MenuCommand::Down),
        Input::Key(Key::Up, Mods::Plain) => Some(MenuCommand::Up),
        Input::Key(Key::Up, Mods::Alt) => Some(MenuCommand::MoveUp),
        Input::Key(Key::Down, Mods::Alt) => Some(MenuCommand::MoveDown),
        Input::Key(Key::Delete, Mods::Plain) => Some(MenuCommand::Delete),
        _ => None,
    }
}

/// The keys of relay mode: each sends one byte to the console server, but
/// Escape, which goes back to menu mode. A character key sends its byte
/// value, unless Alt alone or Control alone is held: with no modifier, with
/// Shift, or with a combination of modifiers (as AltGr gives) it sends. The
/// console reads bytes, so characters outside ASCII are not sent.
pub open spec fn relay_binding(ev: Input) -> Option<RelayAction> {
    match ev {
        Input::Resize(w, h) => Some(RelayAction::Resize(w, h)),
        Input::Key(Key::Esc, Mods::Plain) => Some(RelayAction::Exit),
        Input::Key(Key::Char(c), m) => match m {
            Mods::Alt | Mods::Ctrl => None,
            _ => if (c as u32) < 128 {
                Some(RelayAction::Send(c as u8))
            } else {
                None
            },
        },
        Input::Key(Key::Enter, Mods::Plain) => Some(RelayAction::Send(LF)),
        Input::Key(Key::Up, Mods::Plain) => Some(RelayAction::Send(0x10)),
        Input::Key(Key::Down, Mods::Plain) => Some(RelayAction::Send(0x0e)),
        Input::Key(Key::Left, Mods::Plain) => Some(RelayAction::Send(0x02)),
        Input::Key(Key::Right, Mods::Plain) => Some(RelayAction::Send(0x06)),
        Input::Key(Key::Backspace, Mods::Plain) => Some(RelayAction::Send(BACKSPACE)),
        Input::Key(Key::Tab, Mods::Plain) => Some(RelayAction::Send(0x09)),
        _ => None,
    }
}

pub fn menu_command(ev: Input) -> (r: Option<MenuCommand>)
    ensures
        r == menu_binding(ev),
{
    match ev {
        Input::Resize(w, h) => Some(MenuCommand::Resize(w, h)),
        Input::Key(Key::Char(c), Mods::Plain) => {
            if c == 'i' {
                Some(MenuCommand::EnterRelay)
            } else if c == 't' {
                Some(MenuCommand::Redraw)
            } else if c == 'e' {
                Some(MenuCommand::SetLang(Lang::En))
            } else if c == 'r' {
                Some(MenuCommand::SetLang(Lang::Ru))
            } else if c == 'h' {
                Some(MenuCommand::Help)
            } else if c == 'q' {
                Some(MenuCommand::Quit)
            } else {
                None
            }
        },
        Input::Key(Key::Char(c), Mods::Ctrl) => {
            if c == 'u' {
                Some(MenuCommand::Undelete)
            } else {
                None
            }
        },
        Input::Key(Key::Tab, Mods::Plain) => Some(MenuCommand::ToggleList),
        Input::Key(Key::Right, Mods::Plain) => Some(MenuCommand::Copy),
        Input::Key(Key::Down, Mods::Plain) => Some(MenuCommand::Down),
        Input::Key(Key::Up, Mods::Plain) => Some(MenuCommand::Up),
        Input::Key(Key::Up, Mods::Alt) => Some(MenuCommand::MoveUp),
        Input::Key(Key::Down, Mods::Alt) => Some(MenuCommand::MoveDown),
        Input::Key(Key::Delete, Mods::Plain) => Some(MenuCommand::Delete),
        _ => None,
    }
}

pub fn relay_action(ev: Input) -> (r: Option<RelayAction>)
    ensures
        r == relay_binding(ev),
{
    match ev {
        Input::Resize(w, h) => Some(RelayAction::Resize(w, h)),
        Input::Key(Key::Esc, Mods::Plain) => Some(RelayAction::Exit),
        Input::Key(Key::Char(c), m) => match m {
            Mods::Alt | Mods::Ctrl => None,
            _ => {
                if (c as u32) < 128 {
                    Some(RelayAction::Send(c as u8))
                } else {
                    None
                }
            },
        },
        Input::Key(Key::Enter, Mods::Plain) => Some(RelayAction::Send(LF)),
        Input::Key(Key::Up, Mods::Plain) => Some(RelayAction::Send(0x10)),
        Input::Key(Key::Down, Mods::Plain) => Some(RelayAction::Send(0x0e)),
        Input::Key(Key::Left, Mods::Plain) => Some(RelayAction::Send(0x02)),
        Input::Key(Key::Right, Mods::Plain) => Some(RelayAction::Send(0x06)),
        Input::Key(Key::Backspace, Mods::Plain) => Some(RelayAction::Send(BACKSPACE)),
        Input::Key(Key::Tab, Mods::Plain) => Some(RelayAction::Send(0x09)),
        _ => None,
    }
}

/// What a `VppSh` holds, as values.
pub struct ShellView {
    /// Relay mode, rather than menu mode.
    pub relay: bool,
    /// The terminal's last known width and height.
    pub win: (u16, u16),
    pub history: HistoryView,
}

impl ShellView {
    /// The state after menu command `cmd`.
    pub open spec fn after_menu(self, cmd: MenuCommand) -> ShellView {
        let h = self.history;
        match cmd {
            MenuCommand::EnterRelay => ShellView {
                relay: true,
                history: HistoryView {
                    scan: crate::scan::ScanModel { line: Seq::empty(), pos: 0, ..h.scan },
                    ..h
                },
                ..self
            },
            MenuCommand::Resize(w, h) => ShellView { win: (w, h), ..self },
            MenuCommand::ToggleList => ShellView { history: h.toggled(), ..self },
            MenuCommand::Copy => ShellView { history: h.copy(), ..self },
            MenuCommand::Down => ShellView { history: h.down(), ..self },
            MenuCommand::Up => ShellView { history: h.up(), ..self },
            MenuCommand::MoveUp => ShellView { history: h.move_up(), ..self },
            MenuCommand::MoveDown => ShellView { history: h.move_down(), ..self },
            MenuCommand::Delete => ShellView { history: h.delete(), ..self },
            MenuCommand::Undelete => ShellView { history: h.undelete(), ..self },
            _ => self,
        }
    }

    /// The state after relay action `a`.
    pub open spec fn after_relay(self, ev: Input, a: RelayAction) -> ShellView {
        match a {
            RelayAction::Exit => ShellView { relay: false, ..self },
            RelayAction::Send(_) => if ev == Input::Key(Key::Enter, Mods::Plain) {
                ShellView {
                    history: HistoryView {
                        scan: crate::scan::ScanModel { enter_seen: true, ..self.history.scan },
                        ..self.history
                    },
                    ..self
                }
            } else {
                self
            },
            RelayAction::Resize(w, h) => ShellView { win: (w, h), ..self },
        }
    }
}

/// The state of the relay: the mode, the window size, and the history.
pub struct VppSh {
    pub vppctl: bool,
    win_size: (u16, u16),
    history: History,
}

impl View for VppSh {
    type V = ShellView;

    closed spec fn view(&self) -> ShellView {
        ShellView { relay: self.vppctl, win: self.win_size, history: self.history@ }
    }
}

impl VppSh {
    pub open spec fn inv(&self) -> bool {
        self@.history.wf()
    }

    /// A relay in menu mode, with an empty history, for a terminal of the
    /// given size.
    pub fn new(width: u16, height: u16) -> (r: VppSh)
        ensures
            r.inv(),
            r@ == (ShellView { relay: false, win: (width, height), history: HistoryView::initial() }),
    {
        VppSh { vppctl: false, win_size: (width, height), history: History::new() }
    }

    pub fn history(&self) -> (r: &History)
        ensures
            r@ == self@.history,
    {
        &self.history
    }

    /// Drop the information message once it has been shown.
    pub fn clear_info_text(&mut self)
        requires
            old(self).inv(),
        ensures
            final(self).inv(),
            final(self)@ == (ShellView {
                history: HistoryView { info: None, ..old(self)@.history },
                ..old(self)@
            }),
    {
        self.history.clear_info_text();
    }

    pub fn win_size(&self) -> (r: (u16, u16))
        ensures
            r == self@.win,
    {
        self.win_size
    }

    /// Record the terminal's new size; the result is the announcement of it
    /// to send to the console server.
    pub fn win_resize(&mut self, width: u16, height: u16) -> (r: Vec<u8>)
        ensures
            r@ == naws_bytes(width, height),
            final(self)@ == (ShellView { win: (width, height), ..old(self)@ }),
    {
        self.win_size = (width, height);
        naws_message(width, height)
    }

    /// The negotiation that opens a connection: the terminal type, then the
    /// window size, which is recorded.
    pub fn ctl_init(&mut self, term: &[u8], width: u16, height: u16) -> (r: Vec<u8>)
        ensures
            r@ == ttype_bytes(term@) + naws_bytes(width, height),
            final(self)@ == (ShellView { win: (width, height), ..old(self)@ }),
    {
        let mut r = ttype_message(term);
        let mut size = self.win_resize(width, height);
        r.append(&mut size);
        r
    }

    /// Leave relay mode.
    pub fn quit_vppctl(&mut self)
        ensures
            final(self)@ == (ShellView { relay: false, ..old(self)@ }),
    {
        self.vppctl = false;
    }

    /// Carry out the menu command bound to a terminal event, if any. The
    /// loop stops after `Quit`. Entering relay mode sends a line feed, so that
    /// the console server prints a fresh prompt; a resize sends the new
    /// window size.
    pub fn sh_handle(&mut self, ev: Input) -> (r: MenuOutcome)
        requires
            old(self).inv(),
        ensures
            final(self).inv(),
            r.command == menu_binding(ev),
            r.control == (if r.command == Some(MenuCommand::Quit) {
                Loop::Break
            } else {
                Loop::Continue
            }),
            r.send@ == match r.command {
                Some(MenuCommand::EnterRelay) => seq![LF],
                Some(MenuCommand::Resize(w, h)) => naws_bytes(w, h),
                _ => Seq::<u8>::empty(),
            },
            final(self)@ == match r.command {
                Some(cmd) => old(self)@.after_menu(cmd),
                None => old(self)@,
            },
    {
        let cmd = menu_command(ev);
        let mut send: Vec<u8> = Vec::new();
        match cmd {
            Some(MenuCommand::EnterRelay) => {
                self.history.reset_curr_comand();
                self.vppctl = true;
                send.push(LF);
            },
            Some(MenuCommand::Resize(w, h)) => {
                send = self.win_resize(w, h);
            },
            Some(MenuCommand::ToggleList) => self.history.toggle_active_widget(),
            Some(MenuCommand::Copy) => self.history.copy(),
            Some(MenuCommand::Down) => self.history.down(),
            Some(MenuCommand::Up) => self.history.up(),
            Some(MenuCommand::MoveUp) => self.history.move_up(),
            Some(MenuCommand::MoveDown) => self.history.move_down(),
            Some(MenuCommand::Delete) => self.history.delete(),
            Some(MenuCommand::Undelete) => self.history.undelete(),
            _ => {},
        }
        let control = match cmd {
            Some(MenuCommand::Quit) => Loop::Break,
            _ => Loop::Continue,
        };
        MenuOutcome { control, command: cmd, send }
    }

    /// Carry out the relay-mode action bound to a terminal event, if any. A
    /// key sends its byte, and Enter also notes that the user sent a line
    /// terminator; a resize records the new size and sends it.
    pub fn ctl_handle(&mut self, ev: Input) -> (r: RelayOutcome)
        requires
            old(self).inv(),
        ensures
            final(self).inv(),
            r.action == relay_binding(ev),
            r.send@ == match r.action {
                Some(RelayAction::Send(b)) => seq![b],
                Some(RelayAction::Resize(w, h)) => naws_bytes(w, h),
                _ => Seq::<u8>::empty(),
            },
            final(self)@ == match r.action {
                Some(a) => old(self)@.after_relay(ev, a),
                None => old(self)@,
            },
    {
        let a = relay_action(ev);
        let mut send: Vec<u8> = Vec::new();
        match a {
            Some(RelayAction::Exit) => self.quit_vppctl(),
            Some(RelayAction::Send(b)) => {
                if ev == Input::Key(Key::Enter, Mods::Plain) {
                    self.history.was_enter();
                }
                send.push(b);
            },
            Some(RelayAction::Resize(w, h)) => {
                send = self.win_resize(w, h);
            },
            None => {},
        }
        RelayOutcome { action: a, send }
    }

    /// Decide what becomes of bytes read from the console server; in relay
    /// mode they are scanned for commands first.
    pub fn on_output(&mut self, data: &[u8]) -> (r: ReadAction)
        requires
            old(self).inv(),
        ensures
            final(self).inv(),
            data@.len() == 0 ==> r == ReadAction::Reconnect && final(self)@ == (ShellView {
                relay: false,
                ..old(self)@
            }),
            data@.len() > 0 && old(self)@.relay ==> r == ReadAction::Echo && final(self)@ == (
            ShellView { history: old(self)@.history.after_scan(data@), ..old(self)@ }),
            data@.len() > 0 && !old(self)@.relay ==> r == ReadAction::Discard && final(self)@
                == old(self)@,
    {
        if data.len() == 0 {
            self.quit_vppctl();
            ReadAction::Reconnect
        } else if self.vppctl {
            self.history.collect_history(data);
            ReadAction::Echo
        } else {
            ReadAction::Discard
        }
    }
}

} // verus!
