//! The key model of the interactive mode: terminal keys with their modifier
//! bits, the configuration-supplied binding table, and the decision taken on
//! each iteration of the polling loop.
//!
//! The loop itself lives outside the verified library: it polls the
//! terminal, hands each event to [`kbd_step`], performs the decided action,
//! and lowers the countdown with [`tick`] once per iteration.

use vstd::prelude::*;

use crate::action::Action;

verus! {

/// Modifier bitmask with no modifier held.
pub const MOD_NONE: u8 = 0;

/// Modifier bit of the Shift key.
pub const MOD_SHIFT: u8 = 1;

/// Modifier bit of the Control key.
pub const MOD_CONTROL: u8 = 2;

/// Modifier bit of the Alt key.
pub const MOD_ALT: u8 = 4;

/// A terminal key code. `Media` and `Modifier` carry the subcode of a
/// media or modifier key as a small integer the caller assigns stably, so
/// that distinct physical keys stay distinct binding-table keys.
#[derive(Clone, Copy, Debug, Hash, PartialEq, Eq, Structural)]
pub enum Key {
    Char(char),
    F(u8),
    Backspace,
    Enter,
    Left,
    Right,
    Up,
    Down,
    Home,
    End,
    PageUp,
    PageDown,
    Tab,
    BackTab,
    Delete,
    Insert,
    Null,
    Esc,
    CapsLock,
    ScrollLock,
    NumLock,
    PrintScreen,
    Pause,
    Menu,
    KeypadBegin,
    Media(u8),
    Modifier(u8),
}

/// A key code together with the exact modifier bitmask held with it.
/// Equality is structural: the same character with different modifier bits
/// makes a different binding-table key.
#[derive(Clone, Copy, Debug, Hash, PartialEq, Eq, Structural)]
pub struct KeyAndMods(pub Key, pub u8);

/// Two bindings of one key under different modifier bitmasks are distinct
/// table keys, even when the underlying character renders identically.
pub proof fn lemma_modifiers_distinguish(k: Key, m1: u8, m2: u8)
    requires
        m1 != m2,
    ensures
        KeyAndMods(k, m1) != KeyAndMods(k, m2),
{
}

/// The binding table as a mathematical map: a later binding of the same key
/// overrides an earlier one.
pub open spec fn map_of(s: Seq<(KeyAndMods, Action)>) -> Map<KeyAndMods, Action>
    decreases s.len(),
{
    if s.len() == 0 {
        Map::empty()
    } else {
        map_of(s.drop_last()).insert(s.last().0, s.last().1)
    }
}

/// The configuration-supplied mapping from key-with-modifiers to action.
/// Loaded once at startup and read-only afterwards; keys that are not bound
/// are silently ignored by the loop.
pub struct KeyMap {
    binds: Vec<(KeyAndMods, Action)>,
}

impl View for KeyMap {
    type V = Map<KeyAndMods, Action>;

    closed spec fn view(&self) -> Map<KeyAndMods, Action> {
        map_of(self.binds@)
    }
}

proof fn lemma_map_of_found(s: Seq<(KeyAndMods, Action)>, key: KeyAndMods, k: int)
    requires
        0 <= k < s.len(),
        s[k].0 == key,
        forall|j: int| k < j < s.len() ==> (#[trigger] s[j]).0 != key,
    ensures
        map_of(s).contains_key(key),
        map_of(s)[key] == s[k].1,
    decreases s.len(),
{
    if k == s.len() - 1 {
    } else {
        lemma_map_of_found(s.drop_last(), key, k);
    }
}

proof fn lemma_map_of_absent(s: Seq<(KeyAndMods, Action)>, key: KeyAndMods)
    requires
        forall|j: int| 0 <= j < s.len() ==> (#[trigger] s[j]).0 != key,
    ensures
        !map_of(s).contains_key(key),
    decreases s.len(),
{
    if s.len() > 0 {
        lemma_map_of_absent(s.drop_last(), key);
    }
}

impl KeyMap {
    /// An empty binding table.
    pub fn new() -> (r: KeyMap)
        ensures
            r@ == Map::<KeyAndMods, Action>::empty(),
    {
        KeyMap { binds: Vec::new() }
    }

    /// Binds a key to an action, overriding any earlier binding of it.
    pub fn bind(&mut self, key: KeyAndMods, action: Action)
        ensures
            final(self)@ == old(self)@.insert(key, action),
    {
        self.binds.push((key, action));
        proof {
            assert(self.binds@.drop_last() =~= old(self).binds@);
        }
    }

    /// The action bound to a key, if any.
    pub fn get(&self, key: &KeyAndMods) -> (r: Option<Action>)
        ensures
            r == if self@.contains_key(*key) {
                Some(self@[*key])
            } else {
                None::<Action>
            },
    {
        let n = self.binds.len();
        let mut i: usize = n;
        while i > 0
            invariant
                i <= n,
                n == self.binds@.len(),
                forall|j: int| i <= j < n ==> (#[trigger] self.binds@[j]).0 != *key,
            decreases i,
        {
            i = i - 1;
            let (k, a) = self.binds[i];
            if k == *key {
                proof {
                    lemma_map_of_found(self.binds@, *key, i as int);
                }
                return Some(a);
            }
        }
        proof {
            lemma_map_of_absent(self.binds@, *key);
        }
        None
    }
}

impl KeyAndMods {
    /// The action the binding table holds for this key, if any.
    pub fn action(&self, keybinds: &KeyMap) -> (r: Option<Action>)
        ensures
            r == if keybinds@.contains_key(*self) {
                Some(keybinds@[*self])
            } else {
                None::<Action>
            },
    {
        keybinds.get(self)
    }
}

/// The device address and the binding table, constructed once at process
/// start from the configuration file and read-only afterwards.
pub struct Config {
    pub addr: String,
    pub keybinds: KeyMap,
}

/// One terminal event, as the interactive loop reads it: a key with its
/// modifier bitmask, a bracketed paste, or anything else.
pub enum TermEvent {
    Key(Key, u8),
    Paste(String),
    Other,
}

/// The decision the interactive loop takes on one incoming event.
pub enum LoopStep {
    /// The debounce countdown is still running: the event is read and
    /// discarded, without a binding lookup.
    Drain,
    /// Ctrl+C: leave the loop at once.
    Interrupt,
    /// Nothing is bound to the key, or the event is of no interest.
    Ignore,
    /// Run this bound action.
    Act(Action),
}

/// True of the global interrupt combination: the character `c` with exactly
/// the Control modifier held.
pub open spec fn is_ctrl_c(ev: TermEvent) -> bool {
    ev matches TermEvent::Key(k, m) && k == Key::Char('c') && m == MOD_CONTROL
}

/// What the interactive loop does with one event: drain it while the
/// countdown runs, leave on Ctrl+C, otherwise dispatch through the binding
/// table.
pub open spec fn kbd_step_spec(countdown: u8, ev: TermEvent, binds: Map<KeyAndMods, Action>) -> LoopStep {
    if countdown > 0 {
        LoopStep::Drain
    } else if is_ctrl_c(ev) {
        LoopStep::Interrupt
    } else {
        match ev {
            TermEvent::Key(k, m) => {
                if binds.contains_key(KeyAndMods(k, m)) {
                    LoopStep::Act(binds[KeyAndMods(k, m)])
                } else {
                    LoopStep::Ignore
                }
            },
            _ => LoopStep::Ignore,
        }
    }
}

/// Decides what the interactive loop does with one incoming terminal event,
/// given the current debounce countdown and the binding table.
pub fn kbd_step(countdown: u8, ev: &TermEvent, keybinds: &KeyMap) -> (step: LoopStep)
    ensures
        step == kbd_step_spec(countdown, *ev, keybinds@),
{
    if countdown > 0 {
        return LoopStep::Drain;
    }
    match ev {
        TermEvent::Key(k, m) => {
            if *k == Key::Char('c') && *m == MOD_CONTROL {
                return LoopStep::Interrupt;
            }
            let km = KeyAndMods(*k, *m);
            match km.action(keybinds) {
                Some(action) => LoopStep::Act(action),
                None => LoopStep::Ignore,
            }
        },
        _ => LoopStep::Ignore,
    }
}

/// While the countdown is positive, every incoming event is consumed and
/// discarded: no binding lookup, no dispatch, whatever the event and
/// whatever is bound.
pub proof fn lemma_countdown_drains(countdown: u8, ev: TermEvent, binds: Map<KeyAndMods, Action>)
    requires
        countdown > 0,
    ensures
        kbd_step_spec(countdown, ev, binds) is Drain,
{
}

/// Ctrl+C leaves the interactive loop whatever the binding table holds of
/// it or of any other key, once the countdown has expired.
pub proof fn lemma_ctrl_c_interrupts(ev: TermEvent, binds: Map<KeyAndMods, Action>)
    requires
        is_ctrl_c(ev),
    ensures
        kbd_step_spec(0, ev, binds) is Interrupt,
{
}

/// The decision after one attempt to restore the terminal state on the way
/// out of the interactive loop.
pub enum RetryStep {
    /// The restore call succeeded.
    Done,
    /// The restore call failed; try it again.
    Retry,
    /// The retry ceiling is spent; give up silently, the process is
    /// terminating anyway.
    GiveUp,
}

/// Decides whether to retry the terminal-restore call: a failed attempt is
/// retried until a fixed ceiling of attempts is spent.
pub fn cleanup_step(attempts: u16, succeeded: bool) -> (r: RetryStep)
    ensures
        succeeded ==> r is Done,
        !succeeded && attempts > 1000 ==> r is GiveUp,
        !succeeded && attempts <= 1000 ==> r is Retry,
{
    if succeeded {
        RetryStep::Done
    } else if attempts > 1000 {
        RetryStep::GiveUp
    } else {
        RetryStep::Retry
    }
}

/// Lowers the countdown by one tick, stopping at zero. The loop calls this
/// once per poll iteration.
pub fn tick(countdown: u8) -> (r: u8)
    ensures
        countdown > 0 ==> r == countdown - 1,
        countdown == 0 ==> r == 0,
{
    if countdown > 0 {
        countdown - 1
    } else {
        0
    }
}

} // verus!
