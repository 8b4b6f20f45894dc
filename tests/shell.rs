use vppsh::layout::popup_margins;
use vppsh::telnet::{naws_message, ttype_message};
use vppsh::{
    Input, Key, Lang, Locale, Loop, MenuCommand, MenuOutcome, Mods, ReadAction, RelayAction, RelayOutcome, VppSh,
};

fn key(k: Key) -> Input {
    Input::Key(k, Mods::Plain)
}

fn ch(c: char) -> Input {
    Input::Key(Key::Char(c), Mods::Plain)
}

fn menu(sh: &mut VppSh, ev: Input) -> (Loop, Option<MenuCommand>) {
    let MenuOutcome { control, command, send } = sh.sh_handle(ev);
    match command {
        Some(MenuCommand::EnterRelay) | Some(MenuCommand::Resize(..)) => {}
        _ => assert!(send.is_empty()),
    }
    (control, command)
}

fn relay(sh: &mut VppSh, ev: Input) -> Option<RelayAction> {
    let RelayOutcome { action, send } = sh.ctl_handle(ev);
    match action {
        Some(RelayAction::Send(b)) => assert_eq!(send, vec![b]),
        Some(RelayAction::Resize(w, h)) => assert_eq!(send, naws_message(w, h)),
        _ => assert!(send.is_empty()),
    }
    action
}

fn hist(sh: &VppSh) -> Vec<&str> {
    sh.history().hist().iter().map(|s| s.as_str()).collect()
}

#[test]
fn window_size_is_big_endian() {
    assert_eq!(
        naws_message(300, 40),
        vec![255, 250, 31, 1, 44, 0, 40, 255, 240]
    );
    assert_eq!(
        naws_message(0xffff, 0),
        vec![255, 250, 31, 255, 255, 0, 0, 255, 240]
    );
}

#[test]
fn terminal_type_is_framed() {
    assert_eq!(
        ttype_message(b"xterm"),
        vec![255, 250, 24, b'x', b't', b'e', b'r', b'm', 255, 240]
    );
    assert_eq!(ttype_message(b""), vec![255, 250, 24, 255, 240]);
}

#[test]
fn ctl_init_announces_type_then_size() {
    let mut sh = VppSh::new(80, 24);
    let msg = sh.ctl_init(b"vt100", 100, 50);
    let mut want = ttype_message(b"vt100");
    want.extend(naws_message(100, 50));
    assert_eq!(msg, want);
    assert_eq!(sh.win_size(), (100, 50));
}

#[test]
fn win_resize_records_size() {
    let mut sh = VppSh::new(80, 24);
    assert_eq!(sh.win_size(), (80, 24));
    let msg = sh.win_resize(132, 43);
    assert_eq!(msg, naws_message(132, 43));
    assert_eq!(sh.win_size(), (132, 43));
}

#[test]
fn menu_keys_map_to_commands() {
    let mut sh = VppSh::new(80, 24);
    assert_eq!(menu(&mut sh, ch('t')), (Loop::Continue, Some(MenuCommand::Redraw)));
    assert_eq!(menu(&mut sh, ch('e')), (Loop::Continue, Some(MenuCommand::SetLang(Lang::En))));
    assert_eq!(menu(&mut sh, ch('r')), (Loop::Continue, Some(MenuCommand::SetLang(Lang::Ru))));
    assert_eq!(menu(&mut sh, ch('h')), (Loop::Continue, Some(MenuCommand::Help)));
    assert_eq!(menu(&mut sh, key(Key::Tab)), (Loop::Continue, Some(MenuCommand::ToggleList)));
    assert_eq!(menu(&mut sh, key(Key::Right)), (Loop::Continue, Some(MenuCommand::Copy)));
    assert_eq!(menu(&mut sh, key(Key::Down)), (Loop::Continue, Some(MenuCommand::Down)));
    assert_eq!(menu(&mut sh, key(Key::Up)), (Loop::Continue, Some(MenuCommand::Up)));
    assert_eq!(
        menu(&mut sh, Input::Key(Key::Up, Mods::Alt)),
        (Loop::Continue, Some(MenuCommand::MoveUp))
    );
    assert_eq!(
        menu(&mut sh, Input::Key(Key::Down, Mods::Alt)),
        (Loop::Continue, Some(MenuCommand::MoveDown))
    );
    assert_eq!(menu(&mut sh, key(Key::Delete)), (Loop::Continue, Some(MenuCommand::Delete)));
    assert_eq!(
        menu(&mut sh, Input::Key(Key::Char('u'), Mods::Ctrl)),
        (Loop::Continue, Some(MenuCommand::Undelete))
    );
    assert_eq!(
        menu(&mut sh, Input::Resize(10, 20)),
        (Loop::Continue, Some(MenuCommand::Resize(10, 20)))
    );
    assert_eq!(menu(&mut sh, ch('x')), (Loop::Continue, None));
    assert_eq!(menu(&mut sh, key(Key::Esc)), (Loop::Continue, None));
    assert_eq!(menu(&mut sh, Input::Other), (Loop::Continue, None));
    assert!(!sh.vppctl);
}

#[test]
fn quit_breaks_the_loop() {
    let mut sh = VppSh::new(80, 24);
    assert_eq!(menu(&mut sh, ch('q')), (Loop::Break, Some(MenuCommand::Quit)));
}

#[test]
fn relay_keys_map_to_bytes() {
    let mut sh = VppSh::new(80, 24);
    assert_eq!(menu(&mut sh, ch('i')), (Loop::Continue, Some(MenuCommand::EnterRelay)));
    assert!(sh.vppctl);
    assert_eq!(relay(&mut sh, ch('a')), Some(RelayAction::Send(b'a')));
    assert_eq!(
        relay(&mut sh, Input::Key(Key::Char('A'), Mods::Shift)),
        Some(RelayAction::Send(b'A'))
    );
    assert_eq!(
        relay(&mut sh, Input::Key(Key::Char('?'), Mods::Other)),
        Some(RelayAction::Send(b'?'))
    );
    assert_eq!(relay(&mut sh, Input::Key(Key::Char('c'), Mods::Ctrl)), None);
    assert_eq!(relay(&mut sh, ch('\u{451}')), None);
    assert_eq!(relay(&mut sh, ch('\u{e9}')), None);
    assert_eq!(relay(&mut sh, ch('q')), Some(RelayAction::Send(b'q')));
    assert_eq!(relay(&mut sh, key(Key::Enter)), Some(RelayAction::Send(0x0a)));
    assert_eq!(relay(&mut sh, key(Key::Up)), Some(RelayAction::Send(0x10)));
    assert_eq!(relay(&mut sh, key(Key::Down)), Some(RelayAction::Send(0x0e)));
    assert_eq!(relay(&mut sh, key(Key::Left)), Some(RelayAction::Send(0x02)));
    assert_eq!(relay(&mut sh, key(Key::Right)), Some(RelayAction::Send(0x06)));
    assert_eq!(relay(&mut sh, key(Key::Backspace)), Some(RelayAction::Send(0x08)));
    assert_eq!(relay(&mut sh, key(Key::Tab)), Some(RelayAction::Send(0x09)));
    assert_eq!(relay(&mut sh, Input::Resize(90, 30)), Some(RelayAction::Resize(90, 30)));
    assert_eq!(relay(&mut sh, key(Key::Delete)), None);
    assert_eq!(relay(&mut sh, Input::Key(Key::Char('a'), Mods::Alt)), None);
    assert!(sh.vppctl);
    assert_eq!(relay(&mut sh, key(Key::Esc)), Some(RelayAction::Exit));
    assert!(!sh.vppctl);
}

#[test]
fn relay_session_records_history() {
    let mut sh = VppSh::new(80, 24);
    menu(&mut sh, ch('i'));
    assert_eq!(sh.on_output(b"\r\nvpp# "), ReadAction::Echo);
    for c in "sh int".chars() {
        relay(&mut sh, ch(c));
        sh.on_output(&[c as u8]);
    }
    relay(&mut sh, key(Key::Enter));
    assert_eq!(sh.on_output(b"\r\n  GigabitEthernet0/8/0 up\r\nvpp# "), ReadAction::Echo);
    assert_eq!(hist(&sh), vec!["sh int"]);
}

#[test]
fn menu_mode_discards_output() {
    let mut sh = VppSh::new(80, 24);
    assert_eq!(sh.on_output(b"vpp# x"), ReadAction::Discard);
    assert!(hist(&sh).is_empty());
}

#[test]
fn closed_connection_goes_back_to_menu() {
    let mut sh = VppSh::new(80, 24);
    menu(&mut sh, ch('i'));
    assert_eq!(sh.on_output(b""), ReadAction::Reconnect);
    assert!(!sh.vppctl);
    sh.quit_vppctl();
    assert!(!sh.vppctl);
}

#[test]
fn menu_commands_edit_the_lists() {
    let mut sh = VppSh::new(80, 24);
    menu(&mut sh, ch('i'));
    for line in ["a", "b"] {
        sh.on_output(format!("vpp# {}", line).as_bytes());
        relay(&mut sh, key(Key::Enter));
        sh.on_output(b"\r\n");
    }
    relay(&mut sh, key(Key::Esc));
    assert_eq!(hist(&sh), vec!["a", "b"]);
    menu(&mut sh, key(Key::Down));
    menu(&mut sh, key(Key::Right));
    assert_eq!(sh.history().conf(), &vec!["b".to_string()]);
    menu(&mut sh, Input::Key(Key::Up, Mods::Alt));
    assert_eq!(hist(&sh), vec!["b", "a"]);
    menu(&mut sh, key(Key::Delete));
    assert_eq!(hist(&sh), vec!["a"]);
    menu(&mut sh, Input::Key(Key::Char('u'), Mods::Ctrl));
    assert_eq!(hist(&sh), vec!["a", "b"]);
}

#[test]
fn locale_names_parse() {
    assert_eq!(Locale::parse("en"), Ok(Locale::En));
    assert_eq!(Locale::parse("ru"), Ok(Locale::Ru));
    assert_eq!(Locale::parse("sys"), Ok(Locale::Sys));
    assert_eq!("ru".parse::<Locale>(), Ok(Locale::Ru));
    assert_eq!(
        Locale::parse("de"),
        Err("value must be 'en', 'ru' or 'sys'".to_string())
    );
    assert!(Locale::parse("").is_err());
    assert!(Locale::parse("english").is_err());
}

#[test]
fn system_locale_picks_language() {
    assert_eq!(Locale::Sys.lang(Some("ru_RU.UTF-8")), Lang::Ru);
    assert_eq!(Locale::Sys.lang(Some("en-US")), Lang::En);
    assert_eq!(Locale::Sys.lang(Some("r")), Lang::En);
    assert_eq!(Locale::Sys.lang(None), Lang::En);
    assert_eq!(Locale::Ru.lang(Some("en-US")), Lang::Ru);
    assert_eq!(Locale::En.lang(Some("ru")), Lang::En);
}

#[test]
fn popup_is_centred() {
    assert_eq!(popup_margins(80, 24, 10), (10, 19));
    assert_eq!(popup_margins(80, 24, 60), (10, 7));
    assert_eq!(popup_margins(10, 2, 20), (0, 0));
    assert_eq!(popup_margins(0, 0, 0), (0, 0));
}

#[test]
fn entering_relay_sends_a_line_feed() {
    let mut sh = VppSh::new(80, 24);
    let out = sh.sh_handle(ch('i'));
    assert_eq!(out.control, Loop::Continue);
    assert_eq!(out.command, Some(MenuCommand::EnterRelay));
    assert_eq!(out.send, vec![b'\n']);
    assert!(sh.vppctl);
}

#[test]
fn menu_resize_announces_size() {
    let mut sh = VppSh::new(80, 24);
    let out = sh.sh_handle(Input::Resize(120, 40));
    assert_eq!(out.command, Some(MenuCommand::Resize(120, 40)));
    assert_eq!(out.send, naws_message(120, 40));
    assert_eq!(sh.win_size(), (120, 40));
    let out = sh.sh_handle(key(Key::Down));
    assert!(out.send.is_empty());
}

#[test]
fn relay_resize_records_and_announces_size() {
    let mut sh = VppSh::new(80, 24);
    sh.sh_handle(ch('i'));
    let out = sh.ctl_handle(Input::Resize(132, 43));
    assert_eq!(out.action, Some(RelayAction::Resize(132, 43)));
    assert_eq!(out.send, vec![255, 250, 31, 0, 132, 0, 43, 255, 240]);
    assert_eq!(sh.win_size(), (132, 43));
    assert!(sh.vppctl);
}

#[test]
fn relay_key_sends_its_byte() {
    let mut sh = VppSh::new(80, 24);
    sh.sh_handle(ch('i'));
    assert_eq!(sh.ctl_handle(ch('x')).send, vec![b'x']);
    assert_eq!(sh.ctl_handle(key(Key::Enter)).send, vec![b'\n']);
    assert!(sh.ctl_handle(key(Key::Esc)).send.is_empty());
}
