use rsoku::action::{literal_step, Action, LiteralStep, RunStep};
use rsoku::keyboard::{
    cleanup_step, kbd_step, tick, Key, KeyAndMods, KeyMap, LoopStep, RetryStep, TermEvent,
    MOD_CONTROL, MOD_NONE, MOD_SHIFT,
};

#[test]
fn run_dispatches_one_command_and_sets_delay() {
    let cases: Vec<(Action, &str, u8)> = vec![
        (Action::Up, "keypress/Up", 10),
        (Action::Down, "keypress/Down", 10),
        (Action::Left, "keypress/Left", 10),
        (Action::Right, "keypress/Right", 10),
        (Action::Select, "keypress/Select", 10),
        (Action::Home, "keypress/Home", 10),
        (Action::Back, "keypress/Back", 10),
        (Action::Play, "keypress/Play", 10),
        (Action::Rev, "keypress/Rev", 10),
        (Action::Fwd, "keypress/Fwd", 10),
        (Action::InstantReplay, "keypress/InstantReplay", 10),
        (Action::Info, "keypress/Info", 10),
        (Action::VolumeUp, "keypress/VolumeUp", 50),
        (Action::VolumeDown, "keypress/VolumeDown", 50),
        (Action::VolumeMute, "keypress/VolumeMute", 50),
        (Action::PowerOff, "keypress/PowerOff", 50),
    ];
    for (action, path, delay) in cases {
        let mut countdown: u8 = 7;
        match action.run(&mut countdown) {
            RunStep::Send(cmd) => assert_eq!(cmd, path),
            _ => panic!("expected a send"),
        }
        assert_eq!(countdown, delay);
        assert_eq!(action.get_delay(), delay);
    }
}

#[test]
fn special_actions_send_nothing() {
    let mut countdown: u8 = 3;
    assert!(matches!(Action::Nothing.run(&mut countdown), RunStep::Continue));
    assert_eq!(countdown, 3);
    assert!(matches!(Action::Exit.run(&mut countdown), RunStep::Terminate));
    assert_eq!(countdown, 3);
    assert!(matches!(Action::KeyboardInput.run(&mut countdown), RunStep::EnterLiteral));
    assert_eq!(countdown, 3);
    assert_eq!(Action::Nothing.get_delay(), 0);
    assert_eq!(Action::Exit.get_delay(), 0);
    assert_eq!(Action::KeyboardInput.get_delay(), 0);
}

#[test]
fn shift_makes_a_distinct_key() {
    let plain = KeyAndMods(Key::Char('a'), MOD_NONE);
    let shifted = KeyAndMods(Key::Char('a'), MOD_SHIFT);
    assert_ne!(plain, shifted);
    let mut map = KeyMap::new();
    map.bind(plain, Action::Up);
    map.bind(shifted, Action::Down);
    assert_eq!(plain.action(&map), Some(Action::Up));
    assert_eq!(shifted.action(&map), Some(Action::Down));
}

#[test]
fn binding_table_lookup() {
    let mut map = KeyMap::new();
    let k = KeyAndMods(Key::Char('k'), MOD_NONE);
    assert_eq!(k.action(&map), None);
    map.bind(k, Action::Up);
    assert_eq!(k.action(&map), Some(Action::Up));
    map.bind(k, Action::Down);
    assert_eq!(k.action(&map), Some(Action::Down));
}

#[test]
fn countdown_drains_events() {
    let mut map = KeyMap::new();
    map.bind(KeyAndMods(Key::Char('k'), MOD_NONE), Action::Up);
    let bound = TermEvent::Key(Key::Char('k'), MOD_NONE);
    assert!(matches!(kbd_step(1, &bound, &map), LoopStep::Drain));
    assert!(matches!(kbd_step(200, &bound, &map), LoopStep::Drain));
    let interrupt = TermEvent::Key(Key::Char('c'), MOD_CONTROL);
    assert!(matches!(kbd_step(5, &interrupt, &map), LoopStep::Drain));
    assert!(matches!(kbd_step(0, &bound, &map), LoopStep::Act(Action::Up)));
}

#[test]
fn ctrl_c_always_interrupts() {
    let mut map = KeyMap::new();
    map.bind(KeyAndMods(Key::Char('c'), MOD_CONTROL), Action::Up);
    let interrupt = TermEvent::Key(Key::Char('c'), MOD_CONTROL);
    assert!(matches!(kbd_step(0, &interrupt, &map), LoopStep::Interrupt));
    let empty = KeyMap::new();
    assert!(matches!(kbd_step(0, &interrupt, &empty), LoopStep::Interrupt));
    // plain `c`, or `c` with more modifiers, is not the interrupt
    let plain = TermEvent::Key(Key::Char('c'), MOD_NONE);
    assert!(matches!(kbd_step(0, &plain, &empty), LoopStep::Ignore));
}

#[test]
fn unbound_keys_and_stray_events_are_ignored() {
    let map = KeyMap::new();
    let unbound = TermEvent::Key(Key::Enter, MOD_NONE);
    assert!(matches!(kbd_step(0, &unbound, &map), LoopStep::Ignore));
    assert!(matches!(kbd_step(0, &TermEvent::Other, &map), LoopStep::Ignore));
}

#[test]
fn escape_always_exits_literal_mode() {
    let mut countdown: u8 = 42;
    let esc = TermEvent::Key(Key::Esc, MOD_NONE);
    assert!(matches!(literal_step(&esc, 10, &mut countdown), LiteralStep::ExitMode));
    assert_eq!(countdown, 42);
    let esc_shift = TermEvent::Key(Key::Esc, MOD_SHIFT);
    assert!(matches!(literal_step(&esc_shift, 10, &mut countdown), LiteralStep::ExitMode));
    assert_eq!(countdown, 42);
}

#[test]
fn literal_mode_types_characters() {
    let mut countdown: u8 = 0;
    let shifted = TermEvent::Key(Key::Char('A'), MOD_SHIFT);
    match literal_step(&shifted, 9, &mut countdown) {
        LiteralStep::Dispatch(cmds) => assert_eq!(cmds, vec!["keypress/Lit_A"]),
        _ => panic!("expected a dispatch"),
    }
    assert_eq!(countdown, 9);
    let space = TermEvent::Key(Key::Char(' '), MOD_NONE);
    match literal_step(&space, 9, &mut countdown) {
        LiteralStep::Dispatch(cmds) => assert_eq!(cmds, vec!["keypress/Lit_+"]),
        _ => panic!("expected a dispatch"),
    }
    let backspace = TermEvent::Key(Key::Backspace, MOD_NONE);
    match literal_step(&backspace, 9, &mut countdown) {
        LiteralStep::Dispatch(cmds) => assert_eq!(cmds, vec!["keypress/Backspace"]),
        _ => panic!("expected a dispatch"),
    }
    let mut untouched: u8 = 3;
    let ctrl_a = TermEvent::Key(Key::Char('a'), MOD_CONTROL);
    assert!(matches!(literal_step(&ctrl_a, 9, &mut untouched), LiteralStep::Ignore));
    let shift_backspace = TermEvent::Key(Key::Backspace, MOD_SHIFT);
    assert!(matches!(literal_step(&shift_backspace, 9, &mut untouched), LiteralStep::Ignore));
    assert!(matches!(literal_step(&TermEvent::Other, 9, &mut untouched), LiteralStep::Ignore));
    assert_eq!(untouched, 3);
}

#[test]
fn paste_types_each_character() {
    let mut countdown: u8 = 0;
    let paste = TermEvent::Paste(String::from("h\u{e9} !"));
    match literal_step(&paste, 4, &mut countdown) {
        LiteralStep::Dispatch(cmds) => assert_eq!(
            cmds,
            vec!["keypress/Lit_h", "keypress/Lit_%C3%A9", "keypress/Lit_+", "keypress/Lit_%21"]
        ),
        _ => panic!("expected a dispatch"),
    }
    assert_eq!(countdown, 4);
    let mut untouched: u8 = 5;
    let empty = TermEvent::Paste(String::new());
    assert!(matches!(literal_step(&empty, 4, &mut untouched), LiteralStep::Ignore));
    assert_eq!(untouched, 5);
}

#[test]
fn uncommon_keys_stay_distinct() {
    assert_ne!(KeyAndMods(Key::CapsLock, MOD_NONE), KeyAndMods(Key::ScrollLock, MOD_NONE));
    assert_ne!(Key::Media(0), Key::Media(1));
    assert_ne!(Key::Modifier(3), Key::Media(3));
    let mut map = KeyMap::new();
    map.bind(KeyAndMods(Key::Media(11), MOD_NONE), Action::VolumeUp);
    map.bind(KeyAndMods(Key::Media(10), MOD_NONE), Action::VolumeDown);
    assert_eq!(KeyAndMods(Key::Media(11), MOD_NONE).action(&map), Some(Action::VolumeUp));
    assert_eq!(KeyAndMods(Key::Media(10), MOD_NONE).action(&map), Some(Action::VolumeDown));
    assert_eq!(KeyAndMods(Key::Media(9), MOD_NONE).action(&map), None);
}

#[test]
fn cleanup_retries_until_the_ceiling() {
    assert!(matches!(cleanup_step(0, true), RetryStep::Done));
    assert!(matches!(cleanup_step(2000, true), RetryStep::Done));
    assert!(matches!(cleanup_step(0, false), RetryStep::Retry));
    assert!(matches!(cleanup_step(1000, false), RetryStep::Retry));
    assert!(matches!(cleanup_step(1001, false), RetryStep::GiveUp));
}

#[test]
fn tick_saturates_at_zero() {
    assert_eq!(tick(5), 4);
    assert_eq!(tick(1), 0);
    assert_eq!(tick(0), 0);
}
