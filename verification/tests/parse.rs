use rsoku::command::{split, Command};

#[test]
fn parse_test() {
    Command::parse("hdmi1").unwrap();
    Command::parse("hdmi2").unwrap();
    Command::parse("hdmi3").unwrap();
    Command::parse("hdmi4").unwrap();
}

#[test]
fn alias_with_count() {
    assert!(matches!(Command::parse("u5"), Some(Command::Up(5))));
    assert!(matches!(Command::parse("up5"), Some(Command::Up(5))));
    assert!(matches!(Command::parse("down12"), Some(Command::Down(12))));
    assert!(matches!(Command::parse("<3"), Some(Command::Left(3))));
    assert!(matches!(Command::parse(">200"), Some(Command::Right(200))));
    assert!(matches!(Command::parse("select2"), Some(Command::Select(2))));
    assert!(matches!(Command::parse("back2"), Some(Command::Back(2))));
    assert!(matches!(Command::parse("rev2"), Some(Command::Rev(2))));
    assert!(matches!(Command::parse("forward7"), Some(Command::Fwd(7))));
    assert!(matches!(Command::parse("rw2"), Some(Command::InstantReplay(2))));
    assert!(matches!(Command::parse("x4"), Some(Command::Backspace(4))));
    assert!(matches!(Command::parse("+5"), Some(Command::VolumeUp(5))));
    assert!(matches!(Command::parse("v-5"), Some(Command::VolumeDown(5))));
    assert!(matches!(Command::parse("volume-5"), Some(Command::VolumeDown(5))));
    assert!(matches!(Command::parse("chu9"), Some(Command::ChannelUp(9))));
    assert!(matches!(Command::parse("channeldown2"), Some(Command::ChannelDown(2))));
}

#[test]
fn zero_count_normalizes_to_one() {
    assert!(matches!(Command::parse("u0"), Some(Command::Up(1))));
    assert!(matches!(Command::parse("volume+0"), Some(Command::VolumeUp(1))));
    assert!(matches!(Command::parse("backspace0"), Some(Command::Backspace(1))));
}

#[test]
fn missing_count_means_one() {
    assert!(matches!(Command::parse("u"), Some(Command::Up(1))));
    assert!(matches!(Command::parse("right"), Some(Command::Right(1))));
    assert!(matches!(Command::parse("mute"), Some(Command::VolumeMute)));
    assert!(matches!(Command::parse("off"), Some(Command::PowerOff)));
    assert!(matches!(Command::parse("poweroff"), Some(Command::PowerOff)));
    assert!(matches!(Command::parse("h"), Some(Command::Home)));
    assert!(matches!(Command::parse("pause"), Some(Command::Pause)));
    assert!(matches!(Command::parse("i"), Some(Command::Info)));
    assert!(matches!(Command::parse("*"), Some(Command::Info)));
    assert!(matches!(Command::parse("av"), Some(Command::InputAV1)));
}

#[test]
fn uncounted_alias_ignores_count() {
    assert!(matches!(Command::parse("h5"), Some(Command::Home)));
    assert!(matches!(Command::parse("m0"), Some(Command::VolumeMute)));
}

#[test]
fn hdmi_selects_distinct_inputs() {
    assert!(matches!(Command::parse("hdmi1"), Some(Command::InputHDMI1)));
    assert!(matches!(Command::parse("hdmi2"), Some(Command::InputHDMI2)));
    assert!(matches!(Command::parse("hdmi3"), Some(Command::InputHDMI3)));
    assert!(matches!(Command::parse("hdmi4"), Some(Command::InputHDMI4)));
    assert!(Command::parse("hdmi5").is_none());
    assert!(Command::parse("hdmi255").is_none());
    // a bare or zero count normalizes to one, which selects the first input
    assert!(matches!(Command::parse("hdmi"), Some(Command::InputHDMI1)));
    assert!(matches!(Command::parse("hdmi0"), Some(Command::InputHDMI1)));
}

#[test]
fn keyboard_colon_form() {
    assert!(matches!(Command::parse(":hello"), Some(Command::Keyboard(k)) if k == "hello"));
    assert!(matches!(Command::parse(":a:b"), Some(Command::Keyboard(k)) if k == "a:b"));
    // a counted alias before a colon lacks its count and is rejected
    assert!(Command::parse("u:xx").is_none());
    // an uncounted single-character alias before a colon still matches
    assert!(matches!(Command::parse("h:xx"), Some(Command::Home)));
}

#[test]
fn rejected_tokens() {
    assert!(Command::parse("bogus_token_123").is_none());
    assert!(Command::parse("u999").is_none());
    assert!(Command::parse("u5x").is_none());
    assert!(Command::parse("").is_none());
    assert!(Command::parse("volume").is_none());
    assert!(Command::parse("UP5").is_none());
}

#[test]
fn unicode_numerals_start_the_count_and_reject_the_token() {
    // an Arabic-Indic digit is numeric, so the count starts there,
    // and a count with a numeral outside the ASCII digits never parses
    assert_eq!(split("u\u{663}"), None);
    assert_eq!(split("\u{663}"), None);
    assert_eq!(split("up5\u{663}"), None);
    assert!(Command::parse("u\u{663}").is_none());
    assert!(Command::parse("up5\u{663}").is_none());
    // non-numeric characters outside ASCII stay in the alias
    assert_eq!(split("caf\u{e9}"), Some(("caf\u{e9}", Some(1))));
    assert!(Command::parse("caf\u{e9}").is_none());
}

#[test]
fn split_alias_and_count() {
    assert_eq!(split("up23"), Some(("up", Some(23))));
    assert_eq!(split("up"), Some(("up", Some(1))));
    assert_eq!(split("up0"), Some(("up", Some(1))));
    assert_eq!(split("up255"), Some(("up", Some(255))));
    assert_eq!(split("up256"), None);
    assert_eq!(split("up2x"), None);
    assert_eq!(split("9"), Some(("", Some(9))));
}
