//! Hotkeys: the per-key press/hold/toggle state machine, and the decision
//! for every physical key event — whether it drives a macro and whether it
//! is swallowed or passed on to the focused application.

use vstd::prelude::*;
use crate::namemap::{NameMap, find_key, insert_spec, lookup};
use crate::text::{lowercase, owned, str_eq, to_lowercase};

verus! {

#[derive(Clone, Copy, Debug, PartialEq, Eq, Structural)]
pub enum HotkeyState {
    Idle,
    Pressed,
    Holding,
}

#[derive(Clone, Copy, Debug, PartialEq, Eq, Structural)]
pub enum HotkeyMode {
    Press,
    Hold,
    Toggle,
}

#[derive(Clone, Copy, Debug, PartialEq, Eq, Structural)]
pub enum Transition {
    Nothing,
    Start,
    Stop,
    Toggle,
}

/// `hold` and `toggle` name their modes; anything else is `press`.
pub open spec fn mode_of(s: Seq<char>) -> HotkeyMode {
    if s == "hold"@ {
        HotkeyMode::Hold
    } else if s == "toggle"@ {
        HotkeyMode::Toggle
    } else {
        HotkeyMode::Press
    }
}

pub fn parse_mode(s: &str) -> (r: HotkeyMode)
    ensures
        r == mode_of(s@),
{
    if str_eq(s, "hold") {
        HotkeyMode::Hold
    } else if str_eq(s, "toggle") {
        HotkeyMode::Toggle
    } else {
        HotkeyMode::Press
    }
}

/// The next state and the transition a key press causes.
pub open spec fn key_down(mode: HotkeyMode, st: HotkeyState) -> (HotkeyState, Transition) {
    match mode {
        HotkeyMode::Press => if st == HotkeyState::Idle {
            (HotkeyState::Pressed, Transition::Start)
        } else {
            (st, Transition::Nothing)
        },
        HotkeyMode::Hold => if st == HotkeyState::Idle {
            (HotkeyState::Holding, Transition::Start)
        } else {
            (st, Transition::Nothing)
        },
        HotkeyMode::Toggle => if st == HotkeyState::Idle {
            (HotkeyState::Holding, Transition::Toggle)
        } else if st == HotkeyState::Holding {
            (HotkeyState::Idle, Transition::Stop)
        } else {
            (st, Transition::Nothing)
        },
    }
}

/// The next state and the transition a key release causes.
pub open spec fn key_up(mode: HotkeyMode, st: HotkeyState) -> (HotkeyState, Transition) {
    match mode {
        HotkeyMode::Press => if st == HotkeyState::Pressed {
            (HotkeyState::Idle, Transition::Stop)
        } else {
            (st, Transition::Nothing)
        },
        HotkeyMode::Hold => if st == HotkeyState::Holding {
            (HotkeyState::Idle, Transition::Stop)
        } else {
            (st, Transition::Nothing)
        },
        HotkeyMode::Toggle => (st, Transition::Nothing),
    }
}

pub open spec fn state_active(st: HotkeyState) -> bool {
    st == HotkeyState::Pressed || st == HotkeyState::Holding
}

/// One registered hotkey.
#[derive(Debug)]
pub struct HotkeyInfo {
    state: HotkeyState,
    enabled: bool,
    mode: HotkeyMode,
}

pub struct HotkeyInfoV {
    pub state: HotkeyState,
    pub enabled: bool,
    pub mode: HotkeyMode,
}

impl View for HotkeyInfo {
    type V = HotkeyInfoV;

    closed spec fn view(&self) -> HotkeyInfoV {
        HotkeyInfoV { state: self.state, enabled: self.enabled, mode: self.mode }
    }
}

impl HotkeyInfo {
    pub fn new(mode: HotkeyMode) -> (r: HotkeyInfo)
        ensures
            r@ == (HotkeyInfoV { state: HotkeyState::Idle, enabled: true, mode }),
    {
        HotkeyInfo { state: HotkeyState::Idle, enabled: true, mode }
    }

    pub fn state(&self) -> (r: HotkeyState)
        ensures
            r == self@.state,
    {
        self.state
    }

    pub fn mode(&self) -> (r: HotkeyMode)
        ensures
            r == self@.mode,
    {
        self.mode
    }

    pub fn set_state(&mut self, s: HotkeyState)
        ensures
            final(self)@ == (HotkeyInfoV { state: s, ..old(self)@ }),
    {
        self.state = s;
    }

    pub fn is_active(&self) -> (r: bool)
        ensures
            r == state_active(self@.state),
    {
        self.state == HotkeyState::Pressed || self.state == HotkeyState::Holding
    }

    pub fn is_enabled(&self) -> (r: bool)
        ensures
            r == self@.enabled,
    {
        self.enabled
    }

    pub fn set_enabled(&mut self, en: bool)
        ensures
            final(self)@ == (HotkeyInfoV { enabled: en, ..old(self)@ }),
    {
        self.enabled = en;
    }

    pub fn on_key_down(&mut self) -> (r: Transition)
        ensures
            (final(self)@.state, r) == key_down(old(self)@.mode, old(self)@.state),
            final(self)@.mode == old(self)@.mode,
            final(self)@.enabled == old(self)@.enabled,
    {
        let current = self.state;
        match self.mode {
            HotkeyMode::Press => {
                if current == HotkeyState::Idle {
                    self.state = HotkeyState::Pressed;
                    Transition::Start
                } else {
                    Transition::Nothing
                }
            },
            HotkeyMode::Hold => {
                if current == HotkeyState::Idle {
                    self.state = HotkeyState::Holding;
                    Transition::Start
                } else {
                    Transition::Nothing
                }
            },
            HotkeyMode::Toggle => {
                if current == HotkeyState::Idle {
                    self.state = HotkeyState::Holding;
                    Transition::Toggle
                } else if current == HotkeyState::Holding {
                    self.state = HotkeyState::Idle;
                    Transition::Stop
                } else {
                    Transition::Nothing
                }
            },
        }
    }

    pub fn on_key_up(&mut self) -> (r: Transition)
        ensures
            (final(self)@.state, r) == key_up(old(self)@.mode, old(self)@.state),
            final(self)@.mode == old(self)@.mode,
            final(self)@.enabled == old(self)@.enabled,
    {
        let current = self.state;
        match self.mode {
            HotkeyMode::Press => {
                if current == HotkeyState::Pressed {
                    self.state = HotkeyState::Idle;
                    Transition::Stop
                } else {
                    Transition::Nothing
                }
            },
            HotkeyMode::Hold => {
                if current == HotkeyState::Holding {
                    self.state = HotkeyState::Idle;
                    Transition::Stop
                } else {
                    Transition::Nothing
                }
            },
            HotkeyMode::Toggle => Transition::Nothing,
        }
    }
}

// ── Laws of the state machine ───────────────────────────────────────────

/// Press and hold hotkeys: a press from rest starts the macro, the
/// release stops it and brings the hotkey back to rest.
pub proof fn lemma_press_then_release(mode: HotkeyMode)
    requires
        mode != HotkeyMode::Toggle,
    ensures
        key_down(mode, HotkeyState::Idle).1 == Transition::Start,
        key_up(mode, key_down(mode, HotkeyState::Idle).0) == (HotkeyState::Idle, Transition::Stop),
{
}

/// A toggle hotkey: the first press turns the macro on, the next press
/// turns it off and brings the hotkey back to rest; releases do nothing.
pub proof fn lemma_toggle_twice(st: HotkeyState)
    requires
        st == HotkeyState::Idle,
    ensures
        key_down(HotkeyMode::Toggle, st).1 == Transition::Toggle,
        key_up(HotkeyMode::Toggle, key_down(HotkeyMode::Toggle, st).0) == (
            key_down(HotkeyMode::Toggle, st).0,
            Transition::Nothing,
        ),
        key_down(HotkeyMode::Toggle, key_down(HotkeyMode::Toggle, st).0) == (
            HotkeyState::Idle,
            Transition::Stop,
        ),
{
}

/// Autorepeat: a press while the hotkey is active never starts anything
/// again and leaves it active.
pub proof fn lemma_repeat_is_quiet(mode: HotkeyMode, st: HotkeyState)
    requires
        state_active(st),
        !(mode == HotkeyMode::Toggle && st == HotkeyState::Holding),
    ensures
        key_down(mode, st) == (st, Transition::Nothing),
{
}

/// A release never starts a macro.
pub proof fn lemma_release_never_starts(mode: HotkeyMode, st: HotkeyState)
    ensures
        key_up(mode, st).1 != Transition::Start,
        key_up(mode, st).1 != Transition::Toggle,
{
}

} // verus!
