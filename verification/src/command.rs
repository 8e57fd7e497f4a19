//! The batch-mode command grammar: one command-line token parses into an
//! action with a repeat count, or into a literal text payload. A token with
//! a `:` carries literal text; otherwise everything before the first digit
//! is an alias and everything from it onward is an unsigned repeat count,
//! with zero normalized to one and an absent count meaning one.

use vstd::prelude::*;

use crate::encode::{lit_command, lit_path};

verus! {

/// A parsed command-line token. Repeatable actions carry the repeat count;
/// `Keyboard` carries the literal text to type. `hdmi` with a count of one
/// to four selects one of the four HDMI inputs: the count slot doubles as
/// an input index there.
pub enum Command {
    Up(u8),
    Down(u8),
    Left(u8),
    Right(u8),
    Select(u8),
    Back(u8),
    Home,
    Pause,
    Rev(u8),
    Fwd(u8),
    InstantReplay(u8),
    Info,
    Backspace(u8),
    VolumeUp(u8),
    VolumeDown(u8),
    VolumeMute,
    PowerOff,
    Keyboard(String),
    ChannelUp(u8),
    ChannelDown(u8),
    InputHDMI1,
    InputHDMI2,
    InputHDMI3,
    InputHDMI4,
    InputAV1,
}

/// The mathematical model of a [`Command`]: the same variants, with the
/// literal payload as a character sequence.
pub enum CommandModel {
    Up(u8),
    Down(u8),
    Left(u8),
    Right(u8),
    Select(u8),
    Back(u8),
    Home,
    Pause,
    Rev(u8),
    Fwd(u8),
    InstantReplay(u8),
    Info,
    Backspace(u8),
    VolumeUp(u8),
    VolumeDown(u8),
    VolumeMute,
    PowerOff,
    Keyboard(Seq<char>),
    ChannelUp(u8),
    ChannelDown(u8),
    InputHDMI1,
    InputHDMI2,
    InputHDMI3,
    InputHDMI4,
    InputAV1,
}

impl View for Command {
    type V = CommandModel;

    open spec fn view(&self) -> CommandModel {
        match self {
            Command::Up(n) => CommandModel::Up(*n),
            Command::Down(n) => CommandModel::Down(*n),
            Command::Left(n) => CommandModel::Left(*n),
            Command::Right(n) => CommandModel::Right(*n),
            Command::Select(n) => CommandModel::Select(*n),
            Command::Back(n) => CommandModel::Back(*n),
            Command::Home => CommandModel::Home,
            Command::Pause => CommandModel::Pause,
            Command::Rev(n) => CommandModel::Rev(*n),
            Command::Fwd(n) => CommandModel::Fwd(*n),
            Command::InstantReplay(n) => CommandModel::InstantReplay(*n),
            Command::Info => CommandModel::Info,
            Command::Backspace(n) => CommandModel::Backspace(*n),
            Command::VolumeUp(n) => CommandModel::VolumeUp(*n),
            Command::VolumeDown(n) => CommandModel::VolumeDown(*n),
            Command::VolumeMute => CommandModel::VolumeMute,
            Command::PowerOff => CommandModel::PowerOff,
            Command::Keyboard(keys) => CommandModel::Keyboard(keys@),
            Command::ChannelUp(n) => CommandModel::ChannelUp(*n),
            Command::ChannelDown(n) => CommandModel::ChannelDown(*n),
            Command::InputHDMI1 => CommandModel::InputHDMI1,
            Command::InputHDMI2 => CommandModel::InputHDMI2,
            Command::InputHDMI3 => CommandModel::InputHDMI3,
            Command::InputHDMI4 => CommandModel::InputHDMI4,
            Command::InputAV1 => CommandModel::InputAV1,
        }
    }
}

/// The model of an optional command, for relating the parser to its spec.
pub open spec fn model_of(r: Option<Command>) -> Option<CommandModel> {
    match r {
        Some(c) => Some(c@),
        None => None,
    }
}

/// True of the ten ASCII decimal digits.
pub open spec fn is_digit(c: char) -> bool {
    48 <= c as u32 <= 57
}

/// Whether a character above ASCII falls in the Unicode number categories.
/// Only `char::is_numeric` can answer this; the grammar never looks inside.
pub uninterp spec fn is_numeric_above_ascii(c: char) -> bool;

/// Whether a character counts as numeric for the alias/count boundary: the
/// Unicode number categories (Nd, Nl, No). Of the ASCII characters exactly
/// the ten decimal digits fall in them.
pub open spec fn is_numeric_of(c: char) -> bool {
    if (c as u32) < 128 {
        is_digit(c)
    } else {
        is_numeric_above_ascii(c)
    }
}

/// No character of the sequence is numeric.
pub open spec fn numeric_free(s: Seq<char>) -> bool {
    forall|i: int| 0 <= i < s.len() ==> !is_numeric_of(s[i])
}

/// Every character of the sequence is a decimal digit.
pub open spec fn all_digits(s: Seq<char>) -> bool {
    forall|i: int| 0 <= i < s.len() ==> is_digit(s[i])
}

/// The sequence holds a `:` separator somewhere.
pub open spec fn contains_colon(s: Seq<char>) -> bool {
    exists|i: int| 0 <= i < s.len() && s[i] == ':'
}

/// The position of the first numeric character.
pub open spec fn first_numeric_index(s: Seq<char>) -> int {
    choose|i: int| 0 <= i < s.len() && is_numeric_of(s[i]) && numeric_free(s.subrange(0, i))
}

/// The value of a digit string, most significant digit first.
pub open spec fn digits_value(s: Seq<char>) -> int
    recommends
        all_digits(s),
    decreases s.len(),
{
    if s.len() == 0 {
        0
    } else {
        digits_value(s.drop_last()) * 10 + (s.last() as u32 - 48)
    }
}

/// What parsing the repeat-count suffix as an unsigned byte yields: the
/// digits' value where the suffix is all digits and fits, nothing otherwise.
pub open spec fn parse_u8_spec(s: Seq<char>) -> Option<u8> {
    if s.len() > 0 && all_digits(s) && digits_value(s) <= 255 {
        Some(digits_value(s) as u8)
    } else {
        None
    }
}

/// What splitting a token into alias and repeat count yields: everything
/// before the first numeric character is the alias, everything from it
/// onward is the count, zero normalized to one and an absent count meaning
/// one. A suffix that is not a valid count — a numeral outside the ASCII
/// digits among it, or a value over the byte range — rejects the token.
pub open spec fn split_spec(s: Seq<char>) -> Option<(Seq<char>, u8)> {
    if numeric_free(s) {
        Some((s, 1u8))
    } else {
        let i = first_numeric_index(s);
        match parse_u8_spec(s.subrange(i, s.len() as int)) {
            Some(v) => Some((s.subrange(0, i), if v == 0 { 1u8 } else { v })),
            None => None,
        }
    }
}

/// The alias table: which command an alias selects, given the repeat count
/// from the digit suffix (absent in the `:` form) and the literal payload
/// (present only in the `:` form). An alias whose command carries a count
/// is rejected when the count is absent; `hdmi` asks its count slot for an
/// input index of one to four; an unmatched alias is rejected.
pub open spec fn alias_command(
    cm: Seq<char>,
    rpt: Option<u8>,
    keys: Option<Seq<char>>,
) -> Option<CommandModel> {
    if cm =~= "u"@ || cm =~= "up"@ {
        match rpt {
            Some(n) => Some(CommandModel::Up(n)),
            None => None,
        }
    } else if cm =~= "d"@ || cm =~= "down"@ {
        match rpt {
            Some(n) => Some(CommandModel::Down(n)),
            None => None,
        }
    } else if cm =~= "l"@ || cm =~= "left"@ || cm =~= "<"@ {
        match rpt {
            Some(n) => Some(CommandModel::Left(n)),
            None => None,
        }
    } else if cm =~= "r"@ || cm =~= "right"@ || cm =~= ">"@ {
        match rpt {
            Some(n) => Some(CommandModel::Right(n)),
            None => None,
        }
    } else if cm =~= "s"@ || cm =~= "select"@ {
        match rpt {
            Some(n) => Some(CommandModel::Select(n)),
            None => None,
        }
    } else if cm =~= "b"@ || cm =~= "back"@ {
        match rpt {
            Some(n) => Some(CommandModel::Back(n)),
            None => None,
        }
    } else if cm =~= "h"@ || cm =~= "home"@ {
        Some(CommandModel::Home)
    } else if cm =~= "p"@ || cm =~= "pause"@ {
        Some(CommandModel::Pause)
    } else if cm =~= "rev"@ || cm =~= "reverse"@ {
        match rpt {
            Some(n) => Some(CommandModel::Rev(n)),
            None => None,
        }
    } else if cm =~= "fwd"@ || cm =~= "forward"@ {
        match rpt {
            Some(n) => Some(CommandModel::Fwd(n)),
            None => None,
        }
    } else if cm =~= "rw"@ || cm =~= "replay"@ || cm =~= "rewind"@ {
        match rpt {
            Some(n) => Some(CommandModel::InstantReplay(n)),
            None => None,
        }
    } else if cm =~= "i"@ || cm =~= "info"@ || cm =~= "*"@ {
        Some(CommandModel::Info)
    } else if cm =~= "x"@ || cm =~= "backspace"@ {
        match rpt {
            Some(n) => Some(CommandModel::Backspace(n)),
            None => None,
        }
    } else if cm =~= "+"@ || cm =~= "v+"@ || cm =~= "volume+"@ {
        match rpt {
            Some(n) => Some(CommandModel::VolumeUp(n)),
            None => None,
        }
    } else if cm =~= "-"@ || cm =~= "v-"@ || cm =~= "volume-"@ {
        match rpt {
            Some(n) => Some(CommandModel::VolumeDown(n)),
            None => None,
        }
    } else if cm =~= "m"@ || cm =~= "mute"@ || cm =~= "vx"@ {
        Some(CommandModel::VolumeMute)
    } else if cm =~= "o"@ || cm =~= "off"@ || cm =~= "power"@ || cm =~= "poweroff"@ {
        Some(CommandModel::PowerOff)
    } else if cm =~= "chu"@ || cm =~= "channelup"@ {
        match rpt {
            Some(n) => Some(CommandModel::ChannelUp(n)),
            None => None,
        }
    } else if cm =~= "chd"@ || cm =~= "channeldown"@ {
        match rpt {
            Some(n) => Some(CommandModel::ChannelDown(n)),
            None => None,
        }
    } else if cm =~= "hdmi"@ {
        match rpt {
            Some(n) => if n == 1 {
                Some(CommandModel::InputHDMI1)
            } else if n == 2 {
                Some(CommandModel::InputHDMI2)
            } else if n == 3 {
                Some(CommandModel::InputHDMI3)
            } else if n == 4 {
                Some(CommandModel::InputHDMI4)
            } else {
                None
            },
            None => None,
        }
    } else if cm =~= "av"@ {
        Some(CommandModel::InputAV1)
    } else if cm =~= ":"@ {
        match keys {
            Some(k) => Some(CommandModel::Keyboard(k)),
            None => None,
        }
    } else {
        None
    }
}

/// What parsing one token yields. A token with a `:` selects by its first
/// character and carries the rest as the literal payload; any other token
/// splits into alias and repeat count first.
pub open spec fn parse_spec(s: Seq<char>) -> Option<CommandModel> {
    if contains_colon(s) {
        alias_command(seq![s[0]], None, Some(s.drop_first()))
    } else {
        match split_spec(s) {
            Some((cm, n)) => alias_command(cm, Some(n), None),
            None => None,
        }
    }
}

/// Whether this character is an ASCII decimal digit.
fn is_digit_exec(c: char) -> (b: bool)
    ensures
        b == is_digit(c),
{
    let u = c as u32;
    48 <= u && u <= 57
}

/// Relies on `char::is_numeric`: true exactly of the characters in the
/// Unicode number categories (Nd, Nl, No); the ASCII characters among
/// those are exactly the ten decimal digits.
#[verifier::external_body]
fn is_numeric_char(c: char) -> (b: bool)
    ensures
        b == is_numeric_of(c),
        (c as u32) >= 128 ==> b == is_numeric_above_ascii(c),
{
    c.is_numeric()
}

/// The position of the token's first numeric character, if there is one.
fn first_numeric(raw: &str) -> (r: Option<usize>)
    ensures
        r matches Some(i) ==> i < raw@.len() && is_numeric_of(raw@[i as int]) && numeric_free(
            raw@.subrange(0, i as int),
        ),
        r is None ==> numeric_free(raw@),
{
    let n = raw.unicode_len();
    let mut i: usize = 0;
    while i < n
        invariant
            i <= n,
            n == raw@.len(),
            forall|j: int| 0 <= j < i ==> !is_numeric_of(raw@[j]),
        decreases n - i,
    {
        let c = raw.get_char(i);
        if is_numeric_char(c) {
            proof {
                assert(numeric_free(raw@.subrange(0, i as int)));
            }
            return Some(i);
        }
        i = i + 1;
    }
    None
}

/// The chosen first-numeric position is the position the scan finds.
proof fn lemma_first_numeric_at(s: Seq<char>, i: int)
    requires
        0 <= i < s.len(),
        is_numeric_of(s[i]),
        numeric_free(s.subrange(0, i)),
    ensures
        !numeric_free(s),
        first_numeric_index(s) == i,
{
    assert(!numeric_free(s));
    let k = choose|k: int| 0 <= k < s.len() && is_numeric_of(s[k]) && numeric_free(
        s.subrange(0, k),
    );
    assert(0 <= k < s.len() && is_numeric_of(s[k]) && numeric_free(s.subrange(0, k)));
    if k < i {
        assert(!is_numeric_of(s.subrange(0, i)[k]));
        assert(false);
    }
    if k > i {
        assert(!is_numeric_of(s.subrange(0, k)[i]));
        assert(false);
    }
}

/// Reads the digit suffix that starts at position `i` as an unsigned byte.
fn parse_count(raw: &str, i: usize) -> (r: Option<u8>)
    requires
        i < raw@.len(),
    ensures
        r == parse_u8_spec(raw@.subrange(i as int, raw@.len() as int)),
{
    let ghost suffix = raw@.subrange(i as int, raw@.len() as int);
    let n = raw.unicode_len();
    let mut val: u32 = 0;
    let mut j: usize = i;
    while j < n
        invariant
            i <= j <= n,
            i < n,
            n == raw@.len(),
            suffix == raw@.subrange(i as int, n as int),
            all_digits(suffix.subrange(0, j - i)),
            val <= 255 ==> val == digits_value(suffix.subrange(0, j - i)),
            val > 255 ==> digits_value(suffix.subrange(0, j - i)) > 255,
            val <= 2559,
        decreases n - j,
    {
        let c = raw.get_char(j);
        if !is_digit_exec(c) {
            proof {
                assert(!is_digit(suffix[j - i]));
            }
            return None;
        }
        let d = (c as u32) - 48;
        proof {
            let t = suffix.subrange(0, j - i + 1);
            assert(t.drop_last() =~= suffix.subrange(0, j - i));
            assert(t.last() == suffix[j - i]);
            assert(suffix[j - i] == raw@[j as int]);
        }
        if val <= 255 {
            val = val * 10 + d;
        }
        j = j + 1;
    }
    proof {
        assert(suffix.subrange(0, n - i) =~= suffix);
    }
    if val > 255 {
        return None;
    }
    Some(val as u8)
}

/// Splits a token into the alias before its first numeric character and
/// the repeat count the suffix gives, zero normalized to one and an absent
/// suffix meaning one; rejects a suffix that is not a valid count.
pub fn split(raw: &str) -> (r: Option<(&str, Option<u8>)>)
    ensures
        r matches Some(p) ==> p.1 matches Some(m) && split_spec(raw@) == Some((p.0@, m)),
        r is None ==> split_spec(raw@) is None,
{
    match first_numeric(raw) {
        None => Some((raw, Some(1))),
        Some(i) => {
            proof {
                lemma_first_numeric_at(raw@, i as int);
            }
            match parse_count(raw, i) {
                None => None,
                Some(v) => {
                    let rpt: u8 = if v == 0 {
                        1
                    } else {
                        v
                    };
                    let alias = raw.substring_char(0, i);
                    Some((alias, Some(rpt)))
                },
            }
        },
    }
}

/// Whether the token's characters are exactly the word's.
fn word_is(s: &str, w: &str) -> (b: bool)
    ensures
        b == (s@ =~= w@),
{
    let n = s.unicode_len();
    let m = w.unicode_len();
    if n != m {
        return false;
    }
    let mut i: usize = 0;
    while i < n
        invariant
            i <= n,
            n == s@.len(),
            n == w@.len(),
            forall|j: int| 0 <= j < i ==> s@[j] == w@[j],
        decreases n - i,
    {
        if s.get_char(i) != w.get_char(i) {
            return false;
        }
        i = i + 1;
    }
    true
}

/// Looks an alias up in the fixed table.
fn lookup(cm: &str, rpt: Option<u8>, keys: Option<String>) -> (r: Option<Command>)
    ensures
        model_of(r) == alias_command(
            cm@,
            rpt,
            match keys {
                Some(k) => Some(k@),
                None => None,
            },
        ),
{
    if word_is(cm, "u") || word_is(cm, "up") {
        match rpt {
            Some(n) => Some(Command::Up(n)),
            None => None,
        }
    } else if word_is(cm, "d") || word_is(cm, "down") {
        match rpt {
            Some(n) => Some(Command::Down(n)),
            None => None,
        }
    } else if word_is(cm, "l") || word_is(cm, "left") || word_is(cm, "<") {
        match rpt {
            Some(n) => Some(Command::Left(n)),
            None => None,
        }
    } else if word_is(cm, "r") || word_is(cm, "right") || word_is(cm, ">") {
        match rpt {
            Some(n) => Some(Command::Right(n)),
            None => None,
        }
    } else if word_is(cm, "s") || word_is(cm, "select") {
        match rpt {
            Some(n) => Some(Command::Select(n)),
            None => None,
        }
    } else if word_is(cm, "b") || word_is(cm, "back") {
        match rpt {
            Some(n) => Some(Command::Back(n)),
            None => None,
        }
    } else if word_is(cm, "h") || word_is(cm, "home") {
        Some(Command::Home)
    } else if word_is(cm, "p") || word_is(cm, "pause") {
        Some(Command::Pause)
    } else if word_is(cm, "rev") || word_is(cm, "reverse") {
        match rpt {
            Some(n) => Some(Command::Rev(n)),
            None => None,
        }
    } else if word_is(cm, "fwd") || word_is(cm, "forward") {
        match rpt {
            Some(n) => Some(Command::Fwd(n)),
            None => None,
        }
    } else if word_is(cm, "rw") || word_is(cm, "replay") || word_is(cm, "rewind") {
        match rpt {
            Some(n) => Some(Command::InstantReplay(n)),
            None => None,
        }
    } else if word_is(cm, "i") || word_is(cm, "info") || word_is(cm, "*") {
        Some(Command::Info)
    } else if word_is(cm, "x") || word_is(cm, "backspace") {
        match rpt {
            Some(n) => Some(Command::Backspace(n)),
            None => None,
        }
    } else if word_is(cm, "+") || word_is(cm, "v+") || word_is(cm, "volume+") {
        match rpt {
            Some(n) => Some(Command::VolumeUp(n)),
            None => None,
        }
    } else if word_is(cm, "-") || word_is(cm, "v-") || word_is(cm, "volume-") {
        match rpt {
            Some(n) => Some(Command::VolumeDown(n)),
            None => None,
        }
    } else if word_is(cm, "m") || word_is(cm, "mute") || word_is(cm, "vx") {
        Some(Command::VolumeMute)
    } else if word_is(cm, "o") || word_is(cm, "off") || word_is(cm, "power") || word_is(
        cm,
        "poweroff",
    ) {
        Some(Command::PowerOff)
    } else if word_is(cm, "chu") || word_is(cm, "channelup") {
        match rpt {
            Some(n) => Some(Command::ChannelUp(n)),
            None => None,
        }
    } else if word_is(cm, "chd") || word_is(cm, "channeldown") {
        match rpt {
            Some(n) => Some(Command::ChannelDown(n)),
            None => None,
        }
    } else if word_is(cm, "hdmi") {
        match rpt {
            Some(n) => if n == 1 {
                Some(Command::InputHDMI1)
            } else if n == 2 {
                Some(Command::InputHDMI2)
            } else if n == 3 {
                Some(Command::InputHDMI3)
            } else if n == 4 {
                Some(Command::InputHDMI4)
            } else {
                None
            },
            None => None,
        }
    } else if word_is(cm, "av") {
        Some(Command::InputAV1)
    } else if word_is(cm, ":") {
        match keys {
            Some(k) => Some(Command::Keyboard(k)),
            None => None,
        }
    } else {
        None
    }
}

/// One batch-mode network call: a command path, sent `rpt` times with
/// `delay` milliseconds of sleep after each send.
pub struct Dispatch {
    pub path: String,
    pub rpt: u8,
    pub delay: u64,
}

/// The mathematical model of a [`Dispatch`].
pub struct DispatchModel {
    pub path: Seq<char>,
    pub rpt: u8,
    pub delay: u64,
}

impl View for Dispatch {
    type V = DispatchModel;

    open spec fn view(&self) -> DispatchModel {
        DispatchModel { path: self.path@, rpt: self.rpt, delay: self.delay }
    }
}

impl DeepView for Dispatch {
    type V = DispatchModel;

    open spec fn deep_view(&self) -> DispatchModel {
        self.view()
    }
}

/// A plan of one repeated send.
pub open spec fn one_dispatch(path: Seq<char>, rpt: u8, delay: u64) -> Seq<DispatchModel> {
    seq![DispatchModel { path: path, rpt: rpt, delay: delay }]
}

/// The sends a parsed command asks for: each simple command is one repeated
/// send of its `keypress/<Name>` path with its own inter-press delay, and a
/// literal payload is one percent-encoded literal send per character, in
/// order.
pub open spec fn run_spec(c: CommandModel) -> Seq<DispatchModel> {
    match c {
        CommandModel::Up(n) => one_dispatch("keypress/Up"@, n, 50),
        CommandModel::Down(n) => one_dispatch("keypress/Down"@, n, 50),
        CommandModel::Left(n) => one_dispatch("keypress/Left"@, n, 50),
        CommandModel::Right(n) => one_dispatch("keypress/Right"@, n, 50),
        CommandModel::Select(n) => one_dispatch("keypress/Select"@, n, 50),
        CommandModel::Back(n) => one_dispatch("keypress/Back"@, n, 250),
        CommandModel::Home => one_dispatch("keypress/Home"@, 1, 250),
        CommandModel::Pause => one_dispatch("keypress/Play"@, 1, 250),
        CommandModel::Rev(n) => one_dispatch("keypress/Rev"@, n, 250),
        CommandModel::Fwd(n) => one_dispatch("keypress/Fwd"@, n, 250),
        CommandModel::InstantReplay(n) => one_dispatch("keypress/InstantReplay"@, n, 50),
        CommandModel::Info => one_dispatch("keypress/Info"@, 1, 100),
        CommandModel::Backspace(n) => one_dispatch("keypress/Backspace"@, n, 50),
        CommandModel::VolumeUp(n) => one_dispatch("keypress/VolumeUp"@, n, 50),
        CommandModel::VolumeDown(n) => one_dispatch("keypress/VolumeDown"@, n, 50),
        CommandModel::VolumeMute => one_dispatch("keypress/VolumeMute"@, 1, 50),
        CommandModel::PowerOff => one_dispatch("keypress/PowerOff"@, 1, 2000),
        CommandModel::Keyboard(keys) => Seq::new(
            keys.len(),
            |i: int| DispatchModel { path: lit_path(keys[i]), rpt: 1, delay: 50 },
        ),
        CommandModel::ChannelUp(n) => one_dispatch("keypress/ChannelUp"@, n, 250),
        CommandModel::ChannelDown(n) => one_dispatch("keypress/ChannelDown"@, n, 250),
        CommandModel::InputHDMI1 => one_dispatch("keypress/InputHDMI1"@, 1, 250),
        CommandModel::InputHDMI2 => one_dispatch("keypress/InputHDMI2"@, 1, 250),
        CommandModel::InputHDMI3 => one_dispatch("keypress/InputHDMI3"@, 1, 250),
        CommandModel::InputHDMI4 => one_dispatch("keypress/InputHDMI4"@, 1, 250),
        CommandModel::InputAV1 => one_dispatch("keypress/InputAV1"@, 1, 250),
    }
}

/// A plan of one repeated send of this path.
fn one(path: &str, rpt: u8, delay: u64) -> (v: Vec<Dispatch>)
    ensures
        v.deep_view() == one_dispatch(path@, rpt, delay),
{
    let v = vec![Dispatch { path: path.to_owned(), rpt: rpt, delay: delay }];
    proof {
        assert(v.deep_view() =~= one_dispatch(path@, rpt, delay));
    }
    v
}

impl Command {
    /// The batch-mode sends this command asks for; the caller performs
    /// them in order, sleeping the stated delay after each send.
    pub fn run(&self) -> (plan: Vec<Dispatch>)
        ensures
            plan.deep_view() == run_spec(self@),
    {
        match self {
            Command::Up(n) => one("keypress/Up", *n, 50),
            Command::Down(n) => one("keypress/Down", *n, 50),
            Command::Left(n) => one("keypress/Left", *n, 50),
            Command::Right(n) => one("keypress/Right", *n, 50),
            Command::Select(n) => one("keypress/Select", *n, 50),
            Command::Back(n) => one("keypress/Back", *n, 250),
            Command::Home => one("keypress/Home", 1, 250),
            Command::Pause => one("keypress/Play", 1, 250),
            Command::Rev(n) => one("keypress/Rev", *n, 250),
            Command::Fwd(n) => one("keypress/Fwd", *n, 250),
            Command::InstantReplay(n) => one("keypress/InstantReplay", *n, 50),
            Command::Info => one("keypress/Info", 1, 100),
            Command::Backspace(n) => one("keypress/Backspace", *n, 50),
            Command::VolumeUp(n) => one("keypress/VolumeUp", *n, 50),
            Command::VolumeDown(n) => one("keypress/VolumeDown", *n, 50),
            Command::VolumeMute => one("keypress/VolumeMute", 1, 50),
            Command::PowerOff => one("keypress/PowerOff", 1, 2000),
            Command::Keyboard(keys) => {
                let n = keys.as_str().unicode_len();
                let mut plan: Vec<Dispatch> = Vec::new();
                let mut i: usize = 0;
                while i < n
                    invariant
                        i <= n,
                        n == keys@.len(),
                        plan@.len() == i,
                        forall|j: int| 0 <= j < i ==> (#[trigger] plan@[j])@ == (DispatchModel {
                            path: lit_path(keys@[j]),
                            rpt: 1u8,
                            delay: 50u64,
                        }),
                    decreases n - i,
                {
                    let c = keys.as_str().get_char(i);
                    plan.push(Dispatch { path: lit_command(c), rpt: 1, delay: 50 });
                    i = i + 1;
                }
                proof {
                    assert(plan.deep_view() =~= run_spec(self@));
                }
                plan
            },
            Command::ChannelUp(n) => one("keypress/ChannelUp", *n, 250),
            Command::ChannelDown(n) => one("keypress/ChannelDown", *n, 250),
            Command::InputHDMI1 => one("keypress/InputHDMI1", 1, 250),
            Command::InputHDMI2 => one("keypress/InputHDMI2", 1, 250),
            Command::InputHDMI3 => one("keypress/InputHDMI3", 1, 250),
            Command::InputHDMI4 => one("keypress/InputHDMI4", 1, 250),
            Command::InputAV1 => one("keypress/InputAV1", 1, 250),
        }
    }

    /// Parses one command-line token, or rejects it: an unknown alias, a
    /// bad digit suffix, or a counted alias in the `:` form all yield
    /// nothing, exactly as [`parse_spec`] says.
    pub fn parse(raw: &str) -> (r: Option<Command>)
        ensures
            model_of(r) == parse_spec(raw@),
    {
        let n = raw.unicode_len();
        let mut colon = false;
        let mut i: usize = 0;
        while i < n
            invariant
                i <= n,
                n == raw@.len(),
                colon <==> exists|j: int| 0 <= j < i && raw@[j] == ':',
            decreases n - i,
        {
            if raw.get_char(i) == ':' {
                colon = true;
            }
            i = i + 1;
        }
        if colon {
            let cm = raw.substring_char(0, 1);
            let keys = raw.substring_char(1, n).to_owned();
            proof {
                assert(cm@ =~= seq![raw@[0]]);
                assert(keys@ =~= raw@.drop_first());
            }
            lookup(cm, None, Some(keys))
        } else {
            match split(raw) {
                Some((alias, rpt)) => lookup(alias, rpt, None),
                None => None,
            }
        }
    }
}

/// True of every alias the table matches outside the `:` form: the table
/// yields a command for it whenever a repeat count is at hand.
pub open spec fn alias_in_table(cm: Seq<char>) -> bool {
    alias_command(cm, Some(1u8), None) is Some
}

/// Every table alias is free of numeric characters and of the `:`
/// separator, and is not empty, so a digit suffix appended to it stays a
/// digit suffix.
proof fn lemma_table_alias_shape(cm: Seq<char>)
    requires
        alias_in_table(cm),
    ensures
        numeric_free(cm),
        !contains_colon(cm),
        cm.len() > 0,
{
    reveal_strlit("u");
    reveal_strlit("up");
    reveal_strlit("d");
    reveal_strlit("down");
    reveal_strlit("l");
    reveal_strlit("left");
    reveal_strlit("<");
    reveal_strlit("r");
    reveal_strlit("right");
    reveal_strlit(">");
    reveal_strlit("s");
    reveal_strlit("select");
    reveal_strlit("b");
    reveal_strlit("back");
    reveal_strlit("h");
    reveal_strlit("home");
    reveal_strlit("p");
    reveal_strlit("pause");
    reveal_strlit("rev");
    reveal_strlit("reverse");
    reveal_strlit("fwd");
    reveal_strlit("forward");
    reveal_strlit("rw");
    reveal_strlit("replay");
    reveal_strlit("rewind");
    reveal_strlit("i");
    reveal_strlit("info");
    reveal_strlit("*");
    reveal_strlit("x");
    reveal_strlit("backspace");
    reveal_strlit("+");
    reveal_strlit("v+");
    reveal_strlit("volume+");
    reveal_strlit("-");
    reveal_strlit("v-");
    reveal_strlit("volume-");
    reveal_strlit("m");
    reveal_strlit("mute");
    reveal_strlit("vx");
    reveal_strlit("o");
    reveal_strlit("off");
    reveal_strlit("power");
    reveal_strlit("poweroff");
    reveal_strlit("chu");
    reveal_strlit("channelup");
    reveal_strlit("chd");
    reveal_strlit("channeldown");
    reveal_strlit("hdmi");
    reveal_strlit("av");
}

/// Round trip of the alias table: appending the digit `5` to any table
/// alias parses to what the table holds for that alias with count five —
/// a command for every alias but `hdmi`, which reads the count slot as an
/// input index and accepts only one to four; an appended `0` normalizes to
/// count one; a bare alias means count one, and both of those always parse.
pub proof fn lemma_alias_roundtrip(alias: Seq<char>)
    requires
        alias_in_table(alias),
    ensures
        parse_spec(alias + seq!['5']) == alias_command(alias, Some(5u8), None),
        parse_spec(alias + seq!['0']) == alias_command(alias, Some(1u8), None),
        parse_spec(alias) == alias_command(alias, Some(1u8), None),
        parse_spec(alias) is Some,
        parse_spec(alias + seq!['0']) is Some,
        !(alias =~= "hdmi"@) ==> parse_spec(alias + seq!['5']) is Some,
{
    lemma_table_alias_shape(alias);
    lemma_alias_with_suffix(alias, '5', 5);
    lemma_alias_with_suffix(alias, '0', 0);
    assert(!contains_colon(alias));
    assert(split_spec(alias) == Some((alias, 1u8)));
}

/// Appending one digit to a numeric-free, colon-free, nonempty token makes
/// a token that parses as that alias with the digit's value as its count,
/// zero normalized to one.
proof fn lemma_alias_with_suffix(alias: Seq<char>, c: char, v: u8)
    requires
        numeric_free(alias),
        !contains_colon(alias),
        alias.len() > 0,
        is_digit(c),
        v == c as u32 - 48,
    ensures
        parse_spec(alias + seq![c]) == alias_command(
            alias,
            Some(if v == 0 { 1u8 } else { v }),
            None,
        ),
{
    let s = alias + seq![c];
    assert(forall|i: int| 0 <= i < s.len() ==> s[i] != ':') by {
        assert(forall|i: int| 0 <= i < alias.len() ==> s[i] == alias[i]);
    }
    assert(!contains_colon(s));
    assert(s.subrange(0, alias.len() as int) =~= alias);
    lemma_first_numeric_at(s, alias.len() as int);
    let suffix = s.subrange(alias.len() as int, s.len() as int);
    assert(suffix =~= seq![c]);
    assert(digits_value(seq![c]) == v) by {
        assert(seq![c].drop_last() =~= Seq::<char>::empty());
        assert(digits_value(Seq::<char>::empty()) == 0);
    }
    assert(parse_u8_spec(suffix) == Some(v));
    assert(split_spec(s) == Some((alias, if v == 0 { 1u8 } else { v })));
}

} // verus!
