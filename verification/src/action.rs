//! The fixed vocabulary of remote-control actions, the per-action debounce
//! delay table used in interactive mode, and the command path each action
//! sends to the device.

use vstd::prelude::*;

use crate::encode::{lit_command, lit_path};
use crate::keyboard::{Key, TermEvent, MOD_NONE, MOD_SHIFT};

verus! {

/// One remote-control operation. `Nothing` exists purely so that a key can
/// be bound to no operation in configuration; `Exit` ends the interactive
/// loop; `KeyboardInput` switches into the literal-text sub-mode.
#[derive(Clone, Copy, Debug, PartialEq, Eq, Structural)]
pub enum Action {
    Exit,
    Up,
    Down,
    Left,
    Right,
    Select,
    Home,
    Back,
    Play,
    Rev,
    Fwd,
    InstantReplay,
    VolumeUp,
    VolumeDown,
    VolumeMute,
    Info,
    PowerOff,
    KeyboardInput,
    Nothing,
}

impl Action {
    /// The debounce delay of this action, counted in polling ticks.
    pub open spec fn delay_spec(self) -> u8 {
        match self {
            Action::Nothing | Action::Exit | Action::KeyboardInput => 0,
            Action::VolumeUp | Action::VolumeDown | Action::VolumeMute | Action::PowerOff => 50,
            _ => 10,
        }
    }

    /// Delays are in increments of one polling tick: navigation and
    /// transport actions poll fast, volume and power actions slowly.
    pub fn get_delay(&self) -> (d: u8)
        ensures
            d == self.delay_spec(),
    {
        match self {
            Action::Nothing | Action::Exit | Action::KeyboardInput => 0,
            Action::VolumeUp | Action::VolumeDown | Action::VolumeMute | Action::PowerOff => 50,
            _ => 10,
        }
    }

    /// The command path a simple action sends: `keypress/` and the action's
    /// name. The three special actions send nothing themselves.
    pub open spec fn command_path(self) -> Option<Seq<char>> {
        match self {
            Action::Nothing | Action::Exit | Action::KeyboardInput => None,
            Action::Up => Some("keypress/Up"@),
            Action::Down => Some("keypress/Down"@),
            Action::Left => Some("keypress/Left"@),
            Action::Right => Some("keypress/Right"@),
            Action::Select => Some("keypress/Select"@),
            Action::Home => Some("keypress/Home"@),
            Action::Back => Some("keypress/Back"@),
            Action::Play => Some("keypress/Play"@),
            Action::Rev => Some("keypress/Rev"@),
            Action::Fwd => Some("keypress/Fwd"@),
            Action::InstantReplay => Some("keypress/InstantReplay"@),
            Action::VolumeUp => Some("keypress/VolumeUp"@),
            Action::VolumeDown => Some("keypress/VolumeDown"@),
            Action::VolumeMute => Some("keypress/VolumeMute"@),
            Action::Info => Some("keypress/Info"@),
            Action::PowerOff => Some("keypress/PowerOff"@),
        }
    }

    /// Runs one action with its own table delay: every simple action sends
    /// exactly its `keypress/<Name>` path and starts a countdown of its
    /// table-defined delay.
    pub fn run(&self, countdown: &mut u8) -> (step: RunStep)
        ensures
            self is Nothing ==> step is Continue && *final(countdown) == *old(countdown),
            self is Exit ==> step is Terminate && *final(countdown) == *old(countdown),
            self is KeyboardInput ==> step is EnterLiteral && *final(countdown) == *old(
                countdown,
            ),
            self.command_path() matches Some(p) ==> step matches RunStep::Send(cmd) && cmd@ == p
                && *final(countdown) == self.delay_spec(),
    {
        let delay = self.get_delay();
        self.run_custom_delay(delay, countdown)
    }

    /// Runs one action under a caller-chosen delay: a simple action sends
    /// its command path and sets the countdown to that delay; the special
    /// actions send nothing and leave the countdown alone.
    pub fn run_custom_delay(&self, delay: u8, countdown: &mut u8) -> (step: RunStep)
        ensures
            self is Nothing ==> step is Continue && *final(countdown) == *old(countdown),
            self is Exit ==> step is Terminate && *final(countdown) == *old(countdown),
            self is KeyboardInput ==> step is EnterLiteral && *final(countdown) == *old(
                countdown,
            ),
            self.command_path() matches Some(p) ==> step matches RunStep::Send(cmd) && cmd@ == p
                && *final(countdown) == delay,
    {
        match self {
            Action::Nothing => RunStep::Continue,
            Action::Exit => RunStep::Terminate,
            Action::KeyboardInput => RunStep::EnterLiteral,
            Action::Up => {
                *countdown = delay;
                RunStep::Send("keypress/Up".to_owned())
            },
            Action::Down => {
                *countdown = delay;
                RunStep::Send("keypress/Down".to_owned())
            },
            Action::Left => {
                *countdown = delay;
                RunStep::Send("keypress/Left".to_owned())
            },
            Action::Right => {
                *countdown = delay;
                RunStep::Send("keypress/Right".to_owned())
            },
            Action::Select => {
                *countdown = delay;
                RunStep::Send("keypress/Select".to_owned())
            },
            Action::Home => {
                *countdown = delay;
                RunStep::Send("keypress/Home".to_owned())
            },
            Action::Back => {
                *countdown = delay;
                RunStep::Send("keypress/Back".to_owned())
            },
            Action::Play => {
                *countdown = delay;
                RunStep::Send("keypress/Play".to_owned())
            },
            Action::Rev => {
                *countdown = delay;
                RunStep::Send("keypress/Rev".to_owned())
            },
            Action::Fwd => {
                *countdown = delay;
                RunStep::Send("keypress/Fwd".to_owned())
            },
            Action::InstantReplay => {
                *countdown = delay;
                RunStep::Send("keypress/InstantReplay".to_owned())
            },
            Action::VolumeUp => {
                *countdown = delay;
                RunStep::Send("keypress/VolumeUp".to_owned())
            },
            Action::VolumeDown => {
                *countdown = delay;
                RunStep::Send("keypress/VolumeDown".to_owned())
            },
            Action::VolumeMute => {
                *countdown = delay;
                RunStep::Send("keypress/VolumeMute".to_owned())
            },
            Action::Info => {
                *countdown = delay;
                RunStep::Send("keypress/Info".to_owned())
            },
            Action::PowerOff => {
                *countdown = delay;
                RunStep::Send("keypress/PowerOff".to_owned())
            },
        }
    }
}

/// What running one action asks of the interactive loop.
pub enum RunStep {
    /// Keep polling; nothing was sent.
    Continue,
    /// Leave the loop cleanly.
    Terminate,
    /// Send this one command to the device.
    Send(String),
    /// Enter the literal-text sub-mode until it sees Escape.
    EnterLiteral,
}

/// True of the event that ends the literal-text sub-mode: the Escape key,
/// under any modifiers and whatever the countdown holds.
pub open spec fn literal_exits(ev: TermEvent) -> bool {
    ev matches TermEvent::Key(k, _) && k == Key::Esc
}

/// The command paths the literal-text sub-mode sends for one event: one
/// percent-encoded literal per typed or pasted character, `keypress/
/// Backspace` for an unmodified Backspace, nothing for anything else.
pub open spec fn literal_sends(ev: TermEvent) -> Seq<Seq<char>> {
    match ev {
        TermEvent::Key(k, m) => match k {
            Key::Char(c) => if m == MOD_NONE || m == MOD_SHIFT {
                seq![lit_path(c)]
            } else {
                Seq::empty()
            },
            Key::Backspace => if m == MOD_NONE {
                seq!["keypress/Backspace"@]
            } else {
                Seq::empty()
            },
            _ => Seq::empty(),
        },
        TermEvent::Paste(text) => Seq::new(text@.len(), |i: int| lit_path(text@[i])),
        TermEvent::Other => Seq::empty(),
    }
}

/// The decision the literal-text sub-mode takes on one raw event.
pub enum LiteralStep {
    /// Send each of these commands to the device, in order.
    Dispatch(Vec<String>),
    /// Escape: return control to the binding-table loop.
    ExitMode,
    /// The event is of no interest; nothing is sent.
    Ignore,
}

/// Decides what the literal-text sub-mode does with one raw terminal event.
/// Escape always exits, whatever the countdown holds; each typed or pasted
/// character is sent percent-encoded and restarts the countdown with the
/// caller's delay; everything else is ignored.
pub fn literal_step(ev: &TermEvent, delay: u8, countdown: &mut u8) -> (step: LiteralStep)
    ensures
        step is ExitMode <==> literal_exits(*ev),
        step is Ignore <==> !literal_exits(*ev) && literal_sends(*ev).len() == 0,
        step matches LiteralStep::Dispatch(cmds) ==> cmds.deep_view() == literal_sends(*ev)
            && cmds@.len() > 0 && *final(countdown) == delay,
        !(step is Dispatch) ==> *final(countdown) == *old(countdown),
{
    match ev {
        TermEvent::Key(k, m) => {
            match k {
                Key::Esc => LiteralStep::ExitMode,
                Key::Char(c) => {
                    if *m == MOD_NONE || *m == MOD_SHIFT {
                        let cmd = lit_command(*c);
                        *countdown = delay;
                        let cmds = vec![cmd];
                        proof {
                            assert(cmds.deep_view() =~= literal_sends(*ev));
                        }
                        LiteralStep::Dispatch(cmds)
                    } else {
                        LiteralStep::Ignore
                    }
                },
                Key::Backspace => {
                    if *m == MOD_NONE {
                        let cmd = "keypress/Backspace".to_owned();
                        *countdown = delay;
                        let cmds = vec![cmd];
                        proof {
                            assert(cmds.deep_view() =~= literal_sends(*ev));
                        }
                        LiteralStep::Dispatch(cmds)
                    } else {
                        LiteralStep::Ignore
                    }
                },
                _ => LiteralStep::Ignore,
            }
        },
        TermEvent::Paste(text) => {
            let n = text.as_str().unicode_len();
            if n == 0 {
                proof {
                    assert(literal_sends(*ev).len() == 0);
                }
                LiteralStep::Ignore
            } else {
                let mut cmds: Vec<String> = Vec::new();
                let mut i: usize = 0;
                while i < n
                    invariant
                        i <= n,
                        n == text@.len(),
                        cmds@.len() == i,
                        forall|j: int| 0 <= j < i ==> (#[trigger] cmds@[j])@ == lit_path(
                            text@[j],
                        ),
                    decreases n - i,
                {
                    let c = text.as_str().get_char(i);
                    cmds.push(lit_command(c));
                    i = i + 1;
                }
                *countdown = delay;
                proof {
                    assert(cmds.deep_view() =~= literal_sends(*ev));
                }
                LiteralStep::Dispatch(cmds)
            }
        },
        TermEvent::Other => LiteralStep::Ignore,
    }
}

/// Escape always leaves the literal-text sub-mode, whatever the countdown
/// holds and whatever is bound elsewhere.
pub proof fn lemma_escape_exits(ev: TermEvent)
    requires
        ev matches TermEvent::Key(k, _) && k == Key::Esc,
    ensures
        literal_exits(ev),
{
}

} // verus!
