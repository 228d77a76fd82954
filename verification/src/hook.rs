//! The state the global keyboard and mouse hooks share, and what every
//! physical key event does to it.
//!
//! The suppression gate is fail-closed: an event is swallowed only while the
//! engine is on, not paused, and the configured game is the focused window.
//! Releases always advance the hotkey state machine, open or closed,
//! so a hotkey can never stay stuck in its pressed state.

use vstd::prelude::*;
use crate::hotkey::{
    HotkeyInfo, HotkeyInfoV, HotkeyMode, HotkeyState, Transition, key_down, key_up, state_active,
};
use crate::namemap::{NameMap, find_key, insert_spec, lookup};
use crate::text::{lowercase, owned, to_lowercase};

verus! {

/// The shared hook state.
pub struct HookSharedState {
    /// Registered hotkeys by lowercase key name.
    pub hotkeys: NameMap<HotkeyInfo>,
    /// The last seen up/down state of every key, by lowercase name.
    pub physical_down: NameMap<bool>,
    pub engine_active: bool,
    /// The configured game is the focused window, as the game detector
    /// last determined. Suppression reads this and nothing else.
    pub game_in_focus: bool,
    pub game_present: bool,
    pub paused: bool,
    pub sending: bool,
    /// How many key sequences are being injected right now.
    pub sending_count: i32,
    /// Transitions waiting to be handed to the event handlers, in order.
    pub dispatched: Vec<(String, Transition)>,
}

pub struct HookV {
    pub hotkeys: Seq<(Seq<char>, HotkeyInfoV)>,
    pub physical_down: Seq<(Seq<char>, bool)>,
    pub engine_active: bool,
    pub game_in_focus: bool,
    pub game_present: bool,
    pub paused: bool,
    pub sending: bool,
    pub sending_count: i32,
    pub dispatched: Seq<(Seq<char>, Transition)>,
}

pub open spec fn dispatched_view(d: Seq<(String, Transition)>) -> Seq<(Seq<char>, Transition)> {
    d.map_values(|e: (String, Transition)| (e.0@, e.1))
}

impl View for HookSharedState {
    type V = HookV;

    open spec fn view(&self) -> HookV {
        HookV {
            hotkeys: self.hotkeys@,
            physical_down: self.physical_down@,
            engine_active: self.engine_active,
            game_in_focus: self.game_in_focus,
            game_present: self.game_present,
            paused: self.paused,
            sending: self.sending,
            sending_count: self.sending_count,
            dispatched: dispatched_view(self.dispatched@),
        }
    }
}

// ── The decision for one event ──────────────────────────────────────────

/// The suppression gate: open only when not paused, the engine is on and
/// the game is focused.
pub open spec fn gate_open(s: HookV) -> bool {
    !s.paused && s.engine_active && s.game_in_focus
}

/// Whether a key is recorded as down.
pub open spec fn is_down_in(pd: Seq<(Seq<char>, bool)>, k: Seq<char>) -> bool {
    lookup(pd, k) == Some(true)
}

/// Ctrl (or Control), Shift and Escape are all down.
pub open spec fn emergency_chord(pd: Seq<(Seq<char>, bool)>) -> bool {
    (is_down_in(pd, "ctrl"@) || is_down_in(pd, "control"@)) && is_down_in(pd, "shift"@)
        && is_down_in(pd, "escape"@)
}

/// Every hotkey back at rest.
pub open spec fn all_idle(hs: Seq<(Seq<char>, HotkeyInfoV)>) -> Seq<(Seq<char>, HotkeyInfoV)> {
    hs.map_values(|e: (Seq<char>, HotkeyInfoV)| (e.0, HotkeyInfoV { state: HotkeyState::Idle, ..e.1 }))
}

/// A press or autorepeat of an active hotkey, or any real transition, is
/// the hotkey's own event.
pub open spec fn consume_spec(is_down: bool, active: bool, t: Transition) -> bool {
    t != Transition::Nothing || (is_down && active)
}

/// Hand a transition to the handlers; `None` is not handed on.
pub open spec fn with_dispatch(
    d: Seq<(Seq<char>, Transition)>,
    k: Seq<char>,
    t: Transition,
) -> Seq<(Seq<char>, Transition)> {
    if t == Transition::Nothing {
        d
    } else {
        d.push((k, t))
    }
}

/// The state after one physical event for key `key` (`is_down` for a
/// press), and whether the event is swallowed.
pub open spec fn hotkey_event(s: HookV, key: Seq<char>, is_down: bool) -> (HookV, bool) {
    let k = lowercase(key);
    let s1 = HookV { physical_down: insert_spec(s.physical_down, k, is_down), ..s };
    if is_down && emergency_chord(s1.physical_down) {
        (HookV { paused: true, hotkeys: all_idle(s.hotkeys), ..s1 }, false)
    } else {
        match find_key(s.hotkeys, k) {
            None => (s1, false),
            Some(i) => {
                let h = s.hotkeys[i].1;
                if !h.enabled {
                    (s1, false)
                } else {
                    let (st, t) = if is_down {
                        key_down(h.mode, h.state)
                    } else {
                        key_up(h.mode, h.state)
                    };
                    if !gate_open(s) {
                        let hs = s.hotkeys.update(i, (k, HotkeyInfoV { state: HotkeyState::Idle, ..h }));
                        if t == Transition::Start || t == Transition::Toggle {
                            (HookV { hotkeys: hs, ..s1 }, false)
                        } else {
                            (HookV { hotkeys: hs, dispatched: with_dispatch(s.dispatched, k, t), ..s1 }, false)
                        }
                    } else {
                        let hs = s.hotkeys.update(i, (k, HotkeyInfoV { state: st, ..h }));
                        (
                            HookV { hotkeys: hs, dispatched: with_dispatch(s.dispatched, k, t), ..s1 },
                            consume_spec(is_down, state_active(st), t),
                        )
                    }
                }
            },
        }
    }
}

impl HookSharedState {
    pub fn new() -> (r: HookSharedState)
        ensures
            r@.hotkeys == Seq::<(Seq<char>, HotkeyInfoV)>::empty(),
            r@.physical_down == Seq::<(Seq<char>, bool)>::empty(),
            !r@.engine_active,
            !r@.game_in_focus,
            !r@.game_present,
            !r@.paused,
            !r@.sending,
            r@.sending_count == 0,
            r@.dispatched == Seq::<(Seq<char>, Transition)>::empty(),
    {
        let r = HookSharedState {
            hotkeys: NameMap::new(),
            physical_down: NameMap::new(),
            engine_active: false,
            game_in_focus: false,
            game_present: false,
            paused: false,
            sending: false,
            sending_count: 0,
            dispatched: Vec::new(),
        };
        proof {
            assert(dispatched_view(r.dispatched@) =~= Seq::<(Seq<char>, Transition)>::empty());
        }
        r
    }

    /// Queue a transition for the handlers (`None` is dropped).
    pub fn dispatch(&mut self, key_name: &str, transition: Transition)
        ensures
            final(self)@ == (HookV {
                dispatched: with_dispatch(old(self)@.dispatched, key_name@, transition),
                ..old(self)@
            }),
    {
        if transition == Transition::Nothing {
            return;
        }
        self.dispatched.push((owned(key_name), transition));
        proof {
            assert(dispatched_view(self.dispatched@) =~= dispatched_view(old(self).dispatched@).push(
                (key_name@, transition),
            ));
        }
    }

    /// Hand over the queued transitions, oldest first, and clear the queue.
    pub fn take_dispatched(&mut self) -> (r: Vec<(String, Transition)>)
        ensures
            dispatched_view(r@) == old(self)@.dispatched,
            final(self)@ == (HookV { dispatched: Seq::empty(), ..old(self)@ }),
    {
        let mut out: Vec<(String, Transition)> = Vec::new();
        std::mem::swap(&mut out, &mut self.dispatched);
        proof {
            assert(dispatched_view(self.dispatched@) =~= Seq::<(Seq<char>, Transition)>::empty());
        }
        out
    }

    fn recorded_down(&self, k: &str) -> (r: bool)
        ensures
            r == is_down_in(self@.physical_down, k@),
    {
        match self.physical_down.get(k) {
            Some(d) => *d,
            None => false,
        }
    }

    /// Put every hotkey back at rest.
    pub fn reset_all_states(&mut self)
        ensures
            final(self)@ == (HookV { hotkeys: all_idle(old(self)@.hotkeys), ..old(self)@ }),
    {
        let n = self.hotkeys.len();
        let ghost h0 = self.hotkeys@;
        let mut i: usize = 0;
        while i < n
            invariant
                i <= n,
                n == h0.len(),
                self.hotkeys@.len() == n,
                self.physical_down@ == old(self)@.physical_down,
                self.engine_active == old(self).engine_active,
                self.game_in_focus == old(self).game_in_focus,
                self.game_present == old(self).game_present,
                self.paused == old(self).paused,
                self.sending == old(self).sending,
                self.sending_count == old(self).sending_count,
                self.dispatched@ == old(self).dispatched@,
                h0 == old(self)@.hotkeys,
                forall|k: int| 0 <= k < i ==> #[trigger] self.hotkeys@[k] == all_idle(h0)[k],
                forall|k: int| i <= k < n ==> #[trigger] self.hotkeys@[k] == h0[k],
            decreases n - i,
        {
            let mut h = self.hotkeys.replace_value_at(i, HotkeyInfo::new(HotkeyMode::Press));
            h.set_state(HotkeyState::Idle);
            self.hotkeys.replace_value_at(i, h);
            i += 1;
        }
        proof {
            assert(self.hotkeys@ =~= all_idle(h0));
        }
    }

    /// What one physical key event does: records the key's state, runs the
    /// emergency stop (Ctrl+Shift+Esc pauses everything and resets every
    /// hotkey), advances a registered, enabled hotkey's state machine, and
    /// queues its transition for the handlers. Returns whether the event is
    /// swallowed; only events of an enabled hotkey while suppression is open
    /// are.
    pub fn handle_hotkey_key(&mut self, key_name: &str, is_down: bool) -> (r: bool)
        ensures
            (final(self)@, r) == hotkey_event(old(self)@, key_name@, is_down),
    {
        let key = to_lowercase(key_name);
        let ghost s0 = self@;
        self.physical_down.insert(key.clone(), is_down);
        let ctrl = self.recorded_down("ctrl") || self.recorded_down("control");
        let shift = self.recorded_down("shift");
        let esc = self.recorded_down("escape");
        if ctrl && shift && esc && is_down {
            self.paused = true;
            self.reset_all_states();
            return false;
        }
        let i = match self.hotkeys.index_of(key.as_str()) {
            Some(i) => i,
            None => {
                return false;
            },
        };
        let ghost h0 = s0.hotkeys[i as int].1;
        let mut hk = self.hotkeys.replace_value_at(i, HotkeyInfo::new(HotkeyMode::Press));
        if !hk.is_enabled() {
            self.hotkeys.replace_value_at(i, hk);
            proof {
                assert(self.hotkeys@ =~= s0.hotkeys);
            }
            return false;
        }
        let transition = if is_down {
            hk.on_key_down()
        } else {
            hk.on_key_up()
        };
        let gate = should_suppress_hotkey(self);
        if !gate {
            hk.set_state(HotkeyState::Idle);
            self.hotkeys.replace_value_at(i, hk);
            proof {
                assert(self.hotkeys@ =~= s0.hotkeys.update(
                    i as int,
                    (key@, HotkeyInfoV { state: HotkeyState::Idle, ..h0 }),
                ));
            }
            if transition == Transition::Start || transition == Transition::Toggle {
                return false;
            }
            self.dispatch(key.as_str(), transition);
            return false;
        }
        let active = hk.is_active();
        let ghost st = hk@.state;
        self.hotkeys.replace_value_at(i, hk);
        proof {
            assert(self.hotkeys@ =~= s0.hotkeys.update(i as int, (key@, HotkeyInfoV { state: st, ..h0 })));
        }
        self.dispatch(key.as_str(), transition);
        should_consume_hotkey_event(is_down, active, transition)
    }

    /// Register (or replace) a hotkey by its lowercased name, enabled and at rest.
    pub fn register_hotkey(&mut self, name: &str, mode: HotkeyMode)
        ensures
            final(self)@ == (HookV {
                hotkeys: insert_spec(
                    old(self)@.hotkeys,
                    lowercase(name@),
                    HotkeyInfoV { state: HotkeyState::Idle, enabled: true, mode },
                ),
                ..old(self)@
            }),
            crate::namemap::sorted_keys(final(self)@.hotkeys),
    {
        self.hotkeys.insert(to_lowercase(name), HotkeyInfo::new(mode));
    }

    pub fn clear_hotkeys(&mut self)
        ensures
            final(self)@ == (HookV { hotkeys: Seq::empty(), ..old(self)@ }),
    {
        self.hotkeys = NameMap::new();
    }

    /// Enable or disable the hotkey with that name (lowercased), if registered.
    pub fn set_enabled(&mut self, name: &str, en: bool)
        ensures
            final(self)@ == (HookV {
                hotkeys: match find_key(old(self)@.hotkeys, lowercase(name@)) {
                    Some(i) => old(self)@.hotkeys.update(
                        i,
                        (old(self)@.hotkeys[i].0, HotkeyInfoV { enabled: en, ..old(self)@.hotkeys[i].1 }),
                    ),
                    None => old(self)@.hotkeys,
                },
                ..old(self)@
            }),
    {
        let key = to_lowercase(name);
        match self.hotkeys.index_of(key.as_str()) {
            Some(i) => {
                let ghost hs0 = self.hotkeys@;
                let mut h = self.hotkeys.replace_value_at(i, HotkeyInfo::new(HotkeyMode::Press));
                h.set_enabled(en);
                self.hotkeys.replace_value_at(i, h);
                proof {
                    assert(self.hotkeys@ =~= hs0.update(
                        i as int,
                        (hs0[i as int].0, HotkeyInfoV { enabled: en, ..hs0[i as int].1 }),
                    ));
                }
            },
            None => {},
        }
    }

    /// Whether the hotkey with that name (lowercased) is pressed or held.
    pub fn is_active(&self, name: &str) -> (r: bool)
        ensures
            r == match lookup(self@.hotkeys, lowercase(name@)) {
                Some(h) => state_active(h.state),
                None => false,
            },
    {
        let key = to_lowercase(name);
        match self.hotkeys.get(key.as_str()) {
            Some(h) => h.is_active(),
            None => false,
        }
    }

    /// Whether any hotkey is pressed or held.
    pub fn any_active(&self) -> (r: bool)
        ensures
            r == exists|i: int| 0 <= i < self@.hotkeys.len() && state_active(#[trigger] self@.hotkeys[i].1.state),
    {
        let mut i: usize = 0;
        while i < self.hotkeys.len()
            invariant
                i <= self@.hotkeys.len(),
                forall|k: int| 0 <= k < i ==> !state_active(#[trigger] self@.hotkeys[k].1.state),
            decreases self@.hotkeys.len() - i,
        {
            if self.hotkeys.value_at(i).is_active() {
                return true;
            }
            i += 1;
        }
        false
    }

    /// The recorded up/down state of a key (by lowercased name), if any
    /// event of it has been seen.
    pub fn recorded_key_state(&self, key_name: &str) -> (r: Option<bool>)
        ensures
            r == lookup(self@.physical_down, lowercase(key_name@)),
    {
        let key = to_lowercase(key_name);
        match self.physical_down.get(key.as_str()) {
            Some(d) => Some(*d),
            None => None,
        }
    }

    /// One more key sequence is being injected.
    pub fn acquire_sending(&mut self)
        ensures
            final(self)@ == (HookV {
                sending_count: old(self)@.sending_count.wrapping_add(1),
                sending: true,
                ..old(self)@
            }),
    {
        self.sending_count = self.sending_count.wrapping_add(1);
        self.sending = true;
    }

    /// One injected key sequence has finished; the flag clears when the
    /// last one does. Nothing happens when none is counted.
    pub fn release_sending(&mut self)
        ensures
            old(self)@.sending_count <= 0 ==> final(self)@ == old(self)@,
            old(self)@.sending_count > 0 ==> final(self)@ == (HookV {
                sending_count: (old(self)@.sending_count - 1) as i32,
                sending: if old(self)@.sending_count == 1 {
                    false
                } else {
                    old(self)@.sending
                },
                ..old(self)@
            }),
    {
        if self.sending_count <= 0 {
            return;
        }
        self.sending_count = self.sending_count - 1;
        if self.sending_count == 0 {
            self.sending = false;
        }
    }
}

/// The suppression gate.
pub fn should_suppress_hotkey(state: &HookSharedState) -> (r: bool)
    ensures
        r == gate_open(state@),
{
    if state.paused {
        return false;
    }
    if !state.engine_active {
        return false;
    }
    state.game_in_focus
}

/// Whether a hotkey event is swallowed: any real transition, and presses
/// (autorepeat) while the hotkey is active.
pub fn should_consume_hotkey_event(is_down: bool, active: bool, transition: Transition) -> (r: bool)
    ensures
        r == consume_spec(is_down, active, transition),
{
    transition != Transition::Nothing || (is_down && active)
}

// ── Laws of suppression ─────────────────────────────────────────────────

/// With suppression closed an event is never swallowed, never starts a macro,
/// and leaves its hotkey at rest.
pub proof fn lemma_gate_closed_passes_through(s: HookV, key: Seq<char>, is_down: bool)
    requires
        !gate_open(s),
    ensures
        !hotkey_event(s, key, is_down).1,
        forall|i: int|
            0 <= i < s.hotkeys.len() && find_key(s.hotkeys, lowercase(key)) == Some(i)
                && s.hotkeys[i].1.enabled ==> (#[trigger] hotkey_event(s, key, is_down).0.hotkeys[i]).1.state
                == HotkeyState::Idle,
        hotkey_event(s, key, is_down).0.dispatched == s.dispatched
            || hotkey_event(s, key, is_down).0.dispatched == s.dispatched.push(
            (lowercase(key), Transition::Stop),
        ),
{
}

/// While paused nothing is swallowed.
pub proof fn lemma_paused_never_swallows(s: HookV, key: Seq<char>, is_down: bool)
    requires
        s.paused,
    ensures
        !hotkey_event(s, key, is_down).1,
{
}

/// Ctrl+Shift+Esc pauses the engine and puts every hotkey back at rest,
/// and the Escape itself passes through.
pub proof fn lemma_emergency_stop(s: HookV, key: Seq<char>)
    requires
        emergency_chord(insert_spec(s.physical_down, lowercase(key), true)),
    ensures
        hotkey_event(s, key, true).0.paused,
        hotkey_event(s, key, true).0.hotkeys == all_idle(s.hotkeys),
        !hotkey_event(s, key, true).1,
{
}

/// A release of a pressed or held press/hold hotkey always brings it back
/// to rest and hands `Stop` to the handlers, whether suppression is open or not.
pub proof fn lemma_release_never_wedges(s: HookV, key: Seq<char>, i: int)
    requires
        find_key(s.hotkeys, lowercase(key)) == Some(i),
        0 <= i < s.hotkeys.len(),
        s.hotkeys[i].1.enabled,
        s.hotkeys[i].1.mode != HotkeyMode::Toggle,
        state_active(s.hotkeys[i].1.state),
        s.hotkeys[i].1.mode == HotkeyMode::Press ==> s.hotkeys[i].1.state == HotkeyState::Pressed,
        s.hotkeys[i].1.mode == HotkeyMode::Hold ==> s.hotkeys[i].1.state == HotkeyState::Holding,
    ensures
        hotkey_event(s, key, false).0.hotkeys[i].1.state == HotkeyState::Idle,
        hotkey_event(s, key, false).0.dispatched == s.dispatched.push((lowercase(key), Transition::Stop)),
{
}

} // verus!
