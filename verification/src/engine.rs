//! The engines' decisions: when a pixel trigger fires, which buff timers a
//! sent key starts, how macros are registered and when a running macro
//! stops, the global toggle key, and the game detector's change reports.

use vstd::prelude::*;
use crate::buff::{BuffState, BuffStateV, ExpiryAction, schedule_spec};
use crate::config::{
    BuffTimer, BuffTimerV, Macro, MacroV, Pixel, PixelTrigger, PixelTriggerV, PixelV, Resolution,
    pixels_view, strings_view,
};
use crate::hook::{HookSharedState, HookV};
use crate::hotkey::{HotkeyInfoV, HotkeyMode, HotkeyState, Transition, mode_of, parse_mode};
use crate::keys::{is_mouse_key, mouse_name};
use crate::namemap::{NameMap, insert_spec, lookup};
use crate::pixels::{color_value, parse_color};
use crate::text::{lowercase, owned, str_eq, to_lowercase};

verus! {

// ── Pixel triggers ──────────────────────────────────────────────────────

/// Screen capture is needed only when there are triggers.
pub fn requires_screen_capture(triggers: &Vec<PixelTrigger>) -> (r: bool)
    ensures
        r == (triggers@.len() > 0),
{
    triggers.len() > 0
}

/// The poll interval in milliseconds: the configured rate (250 when there
/// is none), kept within 10..=1000.
pub fn poll_rate(configured: Option<i32>) -> (r: i32)
    ensures
        r == match configured {
            Some(v) => if v < 10 {
                10
            } else if v > 1000 {
                1000
            } else {
                v
            },
            None => 250,
        },
{
    let v = match configured {
        Some(v) => v,
        None => 250,
    };
    if v < 10 {
        10
    } else if v > 1000 {
        1000
    } else {
        v
    }
}

/// A configured pixel as the check takes it: position, colour, variation.
pub open spec fn pixel_tuple(p: PixelV) -> (i32, i32, u32, i32) {
    (p.x, p.y, color_value(p.color), p.variation)
}

pub fn pixel_tuples(pixels: &Vec<Pixel>) -> (r: Vec<(i32, i32, u32, i32)>)
    ensures
        r@ == pixels_view(pixels@).map_values(|p: PixelV| pixel_tuple(p)),
{
    let mut out: Vec<(i32, i32, u32, i32)> = Vec::new();
    let mut i: usize = 0;
    while i < pixels.len()
        invariant
            i <= pixels@.len(),
            out@.len() == i,
            forall|k: int| 0 <= k < i ==> #[trigger] out@[k] == pixel_tuple(pixels@[k]@),
        decreases pixels@.len() - i,
    {
        let p = &pixels[i];
        out.push((p.x, p.y, parse_color(p.color.as_str()), p.variation));
        i += 1;
    }
    proof {
        assert(out@ =~= pixels_view(pixels@).map_values(|p: PixelV| pixel_tuple(p)));
    }
    out
}

/// The resolution to scale coordinates from: a valid capture resolution
/// that differs from the current screen; `None` means no scaling.
pub fn scale_source(capture_res: &Option<Resolution>, cur_w: i32, cur_h: i32) -> (r: Option<Resolution>)
    ensures
        r == match *capture_res {
            Some(c) => if c.w > 0 && c.h > 0 && (c.w != cur_w || c.h != cur_h) {
                Some(c)
            } else {
                None
            },
            None => None,
        },
{
    match capture_res {
        Some(c) => {
            if c.w > 0 && c.h > 0 && (c.w != cur_w || c.h != cur_h) {
                Some(*c)
            } else {
                None
            }
        },
        None => None,
    }
}

/// A trigger's cooldown has run out: it never fired, or at least its
/// cooldown (negative read as zero) has passed since it last did.
pub open spec fn cooldown_over(cooldown: i32, now: u64, last: Option<u64>) -> bool {
    match last {
        Some(t) => (if now >= t {
            now - t
        } else {
            0
        }) >= (if cooldown < 0 {
            0
        } else {
            cooldown as int
        }),
        None => true,
    }
}

pub fn cooldown_elapsed(cooldown: i32, now: u64, last: Option<u64>) -> (r: bool)
    ensures
        r == cooldown_over(cooldown, now, last),
{
    match last {
        Some(t) => {
            let since = now.saturating_sub(t);
            let cd: u64 = if cooldown < 0 {
                0
            } else {
                cooldown as u64
            };
            since >= cd
        },
        None => true,
    }
}

/// The trigger has an anchor to check (one with pixels).
pub open spec fn anchor_set(t: PixelTriggerV) -> bool {
    t.anchor matches Some(a) && a.pixels.len() > 0
}

/// The trigger has a blocker to check (one with pixels).
pub open spec fn blocker_set(t: PixelTriggerV) -> bool {
    t.blocker matches Some(b) && b.pixels.len() > 0
}

pub fn has_anchor(t: &PixelTrigger) -> (r: bool)
    ensures
        r == anchor_set(t@),
{
    match &t.anchor {
        Some(a) => a.pixels.len() > 0,
        None => false,
    }
}

pub fn has_blocker(t: &PixelTrigger) -> (r: bool)
    ensures
        r == blocker_set(t@),
{
    match &t.blocker {
        Some(b) => b.pixels.len() > 0,
        None => false,
    }
}

/// Whether an enabled trigger whose cooldown is over fires, given what its
/// checks saw: its anchor (when it has one) must match, its blocker (when it
/// has one) must not, its pixels must match (or, for an inverse trigger,
/// must not); a `macro` trigger needs its macro running; and the game must
/// be the focused window.
pub open spec fn fires_spec(
    t: PixelTriggerV,
    anchor_ok: bool,
    blocker_hit: bool,
    pixels_matched: bool,
    macro_running: bool,
    game_in_focus: bool,
) -> bool {
    &&& t.enabled
    &&& (anchor_set(t) ==> anchor_ok)
    &&& (blocker_set(t) ==> !blocker_hit)
    &&& pixels_matched != t.inverse
    &&& (t.trigger_mode == "macro"@ ==> macro_running)
    &&& game_in_focus
}

/// Inverting a trigger inverts the sense of its pixel check: an inverse
/// trigger fires on what makes the plain one not fire and the other way
/// round, everything else being equal.
pub proof fn lemma_inverse_flips_the_pixel_check(
    t: PixelTriggerV,
    anchor_ok: bool,
    blocker_hit: bool,
    pixels_matched: bool,
    macro_running: bool,
    game_in_focus: bool,
)
    ensures
        fires_spec(t, anchor_ok, blocker_hit, pixels_matched, macro_running, game_in_focus) == fires_spec(
            PixelTriggerV { inverse: !t.inverse, ..t },
            anchor_ok,
            blocker_hit,
            !pixels_matched,
            macro_running,
            game_in_focus,
        ),
{
}

/// An enabled trigger with no anchor or blocker, not tied to a macro, with
/// the game focused: a plain trigger fires exactly when its pixels match,
/// an inverse one exactly when they do not.
pub proof fn lemma_plain_trigger_follows_its_pixels(t: PixelTriggerV, anchor_ok: bool, blocker_hit: bool, pixels_matched: bool, macro_running: bool)
    requires
        t.enabled,
        t.anchor is None,
        t.blocker is None,
        t.trigger_mode != "macro"@,
    ensures
        !t.inverse ==> (fires_spec(t, anchor_ok, blocker_hit, pixels_matched, macro_running, true) <==> pixels_matched),
        t.inverse ==> (fires_spec(t, anchor_ok, blocker_hit, pixels_matched, macro_running, true) <==> !pixels_matched),
{
}

/// A trigger never fires while the game is not focused, nor while disabled.
pub proof fn lemma_trigger_needs_focus(
    t: PixelTriggerV,
    anchor_ok: bool,
    blocker_hit: bool,
    pixels_matched: bool,
    macro_running: bool,
    game_in_focus: bool,
)
    ensures
        !game_in_focus ==> !fires_spec(t, anchor_ok, blocker_hit, pixels_matched, macro_running, game_in_focus),
        !t.enabled ==> !fires_spec(t, anchor_ok, blocker_hit, pixels_matched, macro_running, game_in_focus),
{
}

pub fn trigger_fires(
    t: &PixelTrigger,
    anchor_ok: bool,
    blocker_hit: bool,
    pixels_matched: bool,
    macro_running: bool,
    game_in_focus: bool,
) -> (r: bool)
    ensures
        r == fires_spec(t@, anchor_ok, blocker_hit, pixels_matched, macro_running, game_in_focus),
{
    if !t.enabled {
        return false;
    }
    if has_anchor(t) && !anchor_ok {
        return false;
    }
    if has_blocker(t) && blocker_hit {
        return false;
    }
    let matched = pixels_matched != t.inverse;
    if !matched {
        return false;
    }
    if str_eq(t.trigger_mode.as_str(), "macro") && !macro_running {
        return false;
    }
    game_in_focus
}

// ── Buff timers started by keys ─────────────────────────────────────────

/// A buff started by sending `key`: enabled, key-triggered, and watching
/// that key (names compared lowercased).
pub open spec fn watches(b: BuffTimerV, key: Seq<char>) -> bool {
    b.enabled && b.trigger_type == "keys"@ && exists|i: int|
        0 <= i < b.watch_keys.len() && lowercase(#[trigger] b.watch_keys[i]) == lowercase(key)
}

/// The timers after `key` was sent at `now`: every buff watching it is
/// activated, in configuration order.
pub open spec fn buffs_after_key(s: BuffStateV, ts: Seq<BuffTimerV>, key: Seq<char>, now: u64) -> BuffStateV
    decreases ts.len(),
{
    if ts.len() == 0 {
        s
    } else {
        let prev = buffs_after_key(s, ts.drop_last(), key, now);
        let b = ts.last();
        if watches(b, key) {
            schedule_spec(prev, b, ExpiryAction::FireActionKey { play_sound: b.sound_on_expiry }, now)
        } else {
            prev
        }
    }
}

pub fn clone_strings(v: &Vec<String>) -> (r: Vec<String>)
    ensures
        strings_view(r@) == strings_view(v@),
{
    let mut out: Vec<String> = Vec::new();
    let mut i: usize = 0;
    while i < v.len()
        invariant
            i <= v@.len(),
            out@.len() == i,
            forall|k: int| 0 <= k < i ==> #[trigger] out@[k]@ == v@[k]@,
        decreases v@.len() - i,
    {
        out.push(v[i].clone());
        i += 1;
    }
    proof {
        assert(strings_view(out@) =~= strings_view(v@));
    }
    out
}

pub fn clone_pixels(v: &Vec<Pixel>) -> (r: Vec<Pixel>)
    ensures
        pixels_view(r@) == pixels_view(v@),
{
    let mut out: Vec<Pixel> = Vec::new();
    let mut i: usize = 0;
    while i < v.len()
        invariant
            i <= v@.len(),
            out@.len() == i,
            forall|k: int| 0 <= k < i ==> #[trigger] out@[k]@ == v@[k]@,
        decreases v@.len() - i,
    {
        let p = &v[i];
        out.push(Pixel { x: p.x, y: p.y, color: p.color.clone(), variation: p.variation });
        i += 1;
    }
    proof {
        assert(pixels_view(out@) =~= pixels_view(v@));
    }
    out
}

/// A copy of a buff timer.
pub fn copy_buff(b: &BuffTimer) -> (r: BuffTimer)
    ensures
        r@ == b@,
{
    BuffTimer {
        name: b.name.clone(),
        watch_keys: clone_strings(&b.watch_keys),
        duration: b.duration,
        action_key: b.action_key.clone(),
        on_refresh: b.on_refresh.clone(),
        extend_ms: b.extend_ms,
        enabled: b.enabled,
        sound_on_expiry: b.sound_on_expiry,
        trigger_type: b.trigger_type.clone(),
        trigger_pixels: clone_pixels(&b.trigger_pixels),
        trigger_match_mode: b.trigger_match_mode.clone(),
        capture_res: b.capture_res,
    }
}

fn buff_watches(b: &BuffTimer, key_lower: &String) -> (r: bool)
    ensures
        r == (b@.enabled && b@.trigger_type == "keys"@ && exists|i: int|
            0 <= i < b@.watch_keys.len() && lowercase(#[trigger] b@.watch_keys[i]) == key_lower@),
{
    if !b.enabled || !str_eq(b.trigger_type.as_str(), "keys") {
        return false;
    }
    let mut i: usize = 0;
    while i < b.watch_keys.len()
        invariant
            i <= b.watch_keys@.len(),
            b@.enabled,
            b@.trigger_type == "keys"@,
            forall|k: int| 0 <= k < i ==> lowercase(#[trigger] b@.watch_keys[k]) != key_lower@,
        decreases b.watch_keys@.len() - i,
    {
        let wk = to_lowercase(b.watch_keys[i].as_str());
        proof {
            assert(b@.watch_keys[i as int] == b.watch_keys@[i as int]@);
        }
        if str_eq(wk.as_str(), key_lower.as_str()) {
            proof {
                assert(lowercase(b@.watch_keys[i as int]) == key_lower@);
            }
            return true;
        }
        i += 1;
    }
    false
}

/// Activate every buff timer that watches `key`, which was just sent.
pub fn check_buffs(buffs: &mut BuffState, timers: &Vec<BuffTimer>, key: &str, now: u64)
    ensures
        final(buffs)@ == buffs_after_key(old(buffs)@, crate::config::buffs_view(timers@), key@, now),
{
    let key_lower = to_lowercase(key);
    let ghost s0 = buffs@;
    let ghost ts = crate::config::buffs_view(timers@);
    let mut i: usize = 0;
    while i < timers.len()
        invariant
            i <= timers@.len(),
            ts == crate::config::buffs_view(timers@),
            key_lower@ == lowercase(key@),
            buffs@ == buffs_after_key(s0, ts.take(i as int), key@, now),
        decreases timers@.len() - i,
    {
        proof {
            assert(ts.take(i + 1).drop_last() =~= ts.take(i as int));
            assert(ts.take(i + 1).last() == timers@[i as int]@);
        }
        if buff_watches(&timers[i], &key_lower) {
            buffs.activate(copy_buff(&timers[i]), now);
        }
        i += 1;
    }
    proof {
        assert(ts.take(timers@.len() as int) =~= ts);
    }
}

// ── Macros ──────────────────────────────────────────────────────────────

/// The automatic stop of a hold macro, in seconds: none for zero or less.
pub fn configured_hold_duration(seconds: i32) -> (r: Option<u64>)
    ensures
        r == if seconds > 0 {
            Some(seconds as u64)
        } else {
            None::<u64>
        },
{
    if seconds > 0 {
        Some(seconds as u64)
    } else {
        None
    }
}

/// Keyboards must be grabbed when some macro's hotkey is a keyboard key
/// (not empty, not a mouse button).
pub open spec fn needs_keyboard(ms: Seq<MacroV>) -> bool {
    exists|i: int| 0 <= i < ms.len() && (#[trigger] ms[i]).hotkey.len() > 0 && !mouse_name(lowercase(ms[i].hotkey))
}

pub fn keyboard_grab_needed(macros: &Vec<Macro>) -> (r: bool)
    ensures
        r == needs_keyboard(crate::config::macros_view(macros@)),
{
    let ghost ms = crate::config::macros_view(macros@);
    let mut i: usize = 0;
    while i < macros.len()
        invariant
            i <= macros@.len(),
            ms == crate::config::macros_view(macros@),
            forall|k: int| 0 <= k < i ==> !((#[trigger] ms[k]).hotkey.len() > 0 && !mouse_name(lowercase(ms[k].hotkey))),
        decreases macros@.len() - i,
    {
        let m = &macros[i];
        if !m.hotkey.as_str().is_empty() && !is_mouse_key(m.hotkey.as_str()) {
            proof {
                assert(ms[i as int] == m@);
            }
            return true;
        }
        i += 1;
    }
    false
}

/// What the macro engine does on a hotkey transition.
#[derive(Clone, Debug, PartialEq)]
pub enum MacroAction {
    /// Start the macro (the `usize` is its position in the macro list).
    Start(usize),
    /// Stop the running macro.
    Stop,
    Nothing,
}

/// The first macro whose lowercased hotkey is `hk`.
pub open spec fn macro_for(ms: Seq<MacroV>, hk: Seq<char>) -> Option<int> {
    crate::document::first_index(ms, |m: MacroV| lowercase(m.hotkey) == hk)
}

/// The engine's answer to a transition of hotkey `key`: nothing for an
/// unknown hotkey, while paused, or for a disabled macro; a start for
/// `Start` and `Toggle`; a stop for `Stop`, except for press macros, which
/// always run to completion.
pub open spec fn macro_action_spec(ms: Seq<MacroV>, key: Seq<char>, t: Transition, paused: bool) -> MacroAction {
    match macro_for(ms, lowercase(key)) {
        None => MacroAction::Nothing,
        Some(i) => {
            let m = ms[i];
            if paused || !m.enabled {
                MacroAction::Nothing
            } else {
                match t {
                    Transition::Start => MacroAction::Start(i as usize),
                    Transition::Toggle => MacroAction::Start(i as usize),
                    Transition::Stop => if m.mode != "press"@ {
                        MacroAction::Stop
                    } else {
                        MacroAction::Nothing
                    },
                    Transition::Nothing => MacroAction::Nothing,
                }
            }
        },
    }
}

/// The macro a hotkey transition acts on is the first one on that hotkey
/// (compared lowercased). For it, enabled and not paused: a start or toggle
/// starts it; a stop (the hotkey released, or toggled off) stops every
/// macro but a press macro, which runs to completion.
pub proof fn lemma_transition_acts_on_the_first_macro(ms: Seq<MacroV>, key: Seq<char>, i: int)
    requires
        0 <= i < ms.len(),
        lowercase(ms[i].hotkey) == lowercase(key),
        forall|j: int| 0 <= j < i ==> lowercase(#[trigger] ms[j].hotkey) != lowercase(key),
        ms[i].enabled,
    ensures
        macro_action_spec(ms, key, Transition::Start, false) == MacroAction::Start(i as usize),
        macro_action_spec(ms, key, Transition::Toggle, false) == MacroAction::Start(i as usize),
        ms[i].mode != "press"@ ==> macro_action_spec(ms, key, Transition::Stop, false) == MacroAction::Stop,
        ms[i].mode == "hold"@ ==> macro_action_spec(ms, key, Transition::Stop, false) == MacroAction::Stop,
        ms[i].mode == "toggle"@ ==> macro_action_spec(ms, key, Transition::Stop, false) == MacroAction::Stop,
        ms[i].mode == "press"@ ==> macro_action_spec(ms, key, Transition::Stop, false) == MacroAction::Nothing,
        macro_action_spec(ms, key, Transition::Nothing, false) == MacroAction::Nothing,
{
    crate::document::lemma_first_index(ms, |m: MacroV| lowercase(m.hotkey) == lowercase(key), i);
    reveal_strlit("press");
    reveal_strlit("hold");
    reveal_strlit("toggle");
    assert("hold"@.len() != "press"@.len());
    assert("toggle"@.len() != "press"@.len());
}

/// While paused, or for a hotkey no macro has, a transition does nothing;
/// a disabled first macro is never started or stopped.
pub proof fn lemma_transition_does_nothing(ms: Seq<MacroV>, key: Seq<char>, t: Transition, paused: bool)
    ensures
        paused ==> macro_action_spec(ms, key, t, paused) == MacroAction::Nothing,
        (forall|j: int| 0 <= j < ms.len() ==> lowercase(#[trigger] ms[j].hotkey) != lowercase(key))
            ==> macro_action_spec(ms, key, t, paused) == MacroAction::Nothing,
        (forall|i: int| 0 <= i < ms.len() && lowercase(#[trigger] ms[i].hotkey) == lowercase(key) && (forall|j: int|
            0 <= j < i ==> lowercase(#[trigger] ms[j].hotkey) != lowercase(key)) ==> !ms[i].enabled)
            ==> macro_action_spec(ms, key, t, paused) == MacroAction::Nothing,
{
    let p = |m: MacroV| lowercase(m.hotkey) == lowercase(key);
    crate::document::lemma_first_index_found(ms, p);
    match macro_for(ms, lowercase(key)) {
        Some(i) => {
            crate::document::lemma_first_index_least(ms, p);
        },
        None => {
            crate::document::lemma_first_index_least(ms, p);
        },
    }
}

pub fn macro_action(macros: &Vec<Macro>, key: &str, transition: Transition, paused: bool) -> (r: MacroAction)
    ensures
        r == macro_action_spec(crate::config::macros_view(macros@), key@, transition, paused),
{
    let hk = to_lowercase(key);
    let ghost ms = crate::config::macros_view(macros@);
    let ghost p = |m: MacroV| lowercase(m.hotkey) == hk@;
    let mut i: usize = 0;
    while i < macros.len()
        invariant
            i <= macros@.len(),
            ms == crate::config::macros_view(macros@),
            hk@ == lowercase(key@),
            p == (|m: MacroV| lowercase(m.hotkey) == hk@),
            forall|k: int| 0 <= k < i ==> !p(#[trigger] ms[k]),
        decreases macros@.len() - i,
    {
        let mh = to_lowercase(macros[i].hotkey.as_str());
        proof {
            assert(ms[i as int] == macros@[i as int]@);
        }
        if str_eq(mh.as_str(), hk.as_str()) {
            proof {
                crate::document::lemma_first_index(ms, p, i as int);
            }
            let m = &macros[i];
            if paused || !m.enabled {
                return MacroAction::Nothing;
            }
            return match transition {
                Transition::Start => MacroAction::Start(i),
                Transition::Toggle => MacroAction::Start(i),
                Transition::Stop => if !str_eq(m.mode.as_str(), "press") {
                    MacroAction::Stop
                } else {
                    MacroAction::Nothing
                },
                Transition::Nothing => MacroAction::Nothing,
            };
        }
        i += 1;
    }
    proof {
        crate::document::lemma_first_index(ms, p, i as int);
    }
    MacroAction::Nothing
}

/// The name the hooks file a macro's hotkey under: the hotkey lowercased
/// by the registry, then lowercased again by the hooks, which lowercase
/// every name they are given.
pub open spec fn hook_key(hotkey: Seq<char>) -> Seq<char> {
    lowercase(lowercase(hotkey))
}

/// What the hooks hold for a registered macro: at rest, with the macro's
/// mode and enabled flag.
pub open spec fn hook_entry(m: MacroV) -> HotkeyInfoV {
    HotkeyInfoV { state: HotkeyState::Idle, enabled: m.enabled, mode: mode_of(m.mode) }
}

/// The hooks' hotkeys after registering `ms` in order from none: one entry
/// per distinct non-empty lowercased hotkey, a later macro replacing an
/// earlier one on the same hotkey.
pub open spec fn registered_hotkeys(ms: Seq<MacroV>) -> Seq<(Seq<char>, HotkeyInfoV)>
    decreases ms.len(),
{
    if ms.len() == 0 {
        Seq::empty()
    } else {
        let prev = registered_hotkeys(ms.drop_last());
        let m = ms.last();
        if lowercase(m.hotkey).len() > 0 {
            insert_spec(prev, hook_key(m.hotkey), hook_entry(m))
        } else {
            prev
        }
    }
}

/// The macro table after registering `ms` in order: each macro with a
/// hotkey under its lowercased hotkey, the last one winning.
pub open spec fn registered_profile(ms: Seq<MacroV>) -> Seq<(Seq<char>, MacroV)>
    decreases ms.len(),
{
    if ms.len() == 0 {
        Seq::empty()
    } else {
        let prev = registered_profile(ms.drop_last());
        let m = ms.last();
        if lowercase(m.hotkey).len() > 0 {
            insert_spec(prev, lowercase(m.hotkey), m)
        } else {
            prev
        }
    }
}

/// The running table after registering `ms` in order: every registered
/// hotkey, not running.
pub open spec fn registered_running(ms: Seq<MacroV>) -> Seq<(Seq<char>, bool)>
    decreases ms.len(),
{
    if ms.len() == 0 {
        Seq::empty()
    } else {
        let prev = registered_running(ms.drop_last());
        let m = ms.last();
        if lowercase(m.hotkey).len() > 0 {
            insert_spec(prev, lowercase(m.hotkey), false)
        } else {
            prev
        }
    }
}

/// The registered macros and whether each is running, by lowercase hotkey.
pub struct MacroRegistry {
    pub profile: NameMap<Macro>,
    pub running: NameMap<bool>,
}

impl MacroRegistry {
    pub fn new() -> (r: MacroRegistry)
        ensures
            r.profile@ == Seq::<(Seq<char>, MacroV)>::empty(),
            r.running@ == Seq::<(Seq<char>, bool)>::empty(),
    {
        MacroRegistry { profile: NameMap::new(), running: NameMap::new() }
    }

    /// Whether the macro on that hotkey (lowercased) is running.
    pub fn is_running(&self, hotkey: &str) -> (r: bool)
        ensures
            r == (lookup(self.running@, lowercase(hotkey@)) == Some(true)),
    {
        let hk = to_lowercase(hotkey);
        match self.running.get(hk.as_str()) {
            Some(f) => *f,
            None => false,
        }
    }

    /// Whether any macro is running.
    pub fn any_running(&self) -> (r: bool)
        ensures
            r == exists|i: int| 0 <= i < self.running@.len() && (#[trigger] self.running@[i]).1,
    {
        let mut i: usize = 0;
        while i < self.running.len()
            invariant
                i <= self.running@.len(),
                forall|k: int| 0 <= k < i ==> !(#[trigger] self.running@[k]).1,
            decreases self.running@.len() - i,
        {
            if *self.running.value_at(i) {
                return true;
            }
            i += 1;
        }
        false
    }

    /// Mark the macro on a registered hotkey running or stopped; an
    /// unregistered hotkey is left alone. Tells whether it was registered.
    pub fn set_running(&mut self, hk: &str, on: bool) -> (r: bool)
        ensures
            r == (lookup(old(self).running@, hk@) is Some),
            r ==> final(self).running@ == insert_spec(old(self).running@, hk@, on),
            !r ==> final(self).running@ == old(self).running@,
            final(self).profile@ == old(self).profile@,
    {
        if self.running.contains_key(hk) {
            self.running.insert(owned(hk), on);
            true
        } else {
            false
        }
    }

    /// Forget every macro (all running flags drop with them).
    pub fn cleanup(&mut self, hooks: &mut HookSharedState)
        ensures
            final(self).profile@ == Seq::<(Seq<char>, MacroV)>::empty(),
            final(self).running@ == Seq::<(Seq<char>, bool)>::empty(),
            final(hooks)@ == (HookV { hotkeys: Seq::empty(), ..old(hooks)@ }),
    {
        hooks.clear_hotkeys();
        self.profile = NameMap::new();
        self.running = NameMap::new();
    }

    /// Register a profile's macros: each one with a hotkey is registered
    /// with the hooks under its lowercased hotkey (mode and enabled flag
    /// from the macro) and recorded as not running. Returns whether
    /// keyboards must be grabbed.
    pub fn setup(&mut self, hooks: &mut HookSharedState, macros: Vec<Macro>) -> (kb_needed: bool)
        ensures
            kb_needed == needs_keyboard(crate::config::macros_view(macros@)),
            final(hooks)@ == (HookV { hotkeys: registered_hotkeys(crate::config::macros_view(macros@)), ..old(hooks)@ }),
            final(self).profile@ == registered_profile(crate::config::macros_view(macros@)),
            final(self).running@ == registered_running(crate::config::macros_view(macros@)),
            forall|k: int| 0 <= k < final(self).running@.len() ==> !(#[trigger] final(self).running@[k]).1,
            forall|i: int|
                0 <= i < macros@.len() && lowercase(macros@[i].hotkey@).len() > 0 ==> lookup(
                    final(self).running@,
                    lowercase(#[trigger] macros@[i].hotkey@),
                ) == Some(false),
    {
        self.cleanup(hooks);
        let kb_needed = keyboard_grab_needed(&macros);
        let ghost ms = macros@;
        let ghost mv = crate::config::macros_view(macros@);
        let ghost h0 = hooks@;
        proof {
            assert(mv.take(0) =~= Seq::<MacroV>::empty());
        }
        let mut rest = macros;
        let total = rest.len();
        let mut done: usize = 0;
        while rest.len() > 0
            invariant
                done + rest@.len() == ms.len(),
                ms.len() == total,
                rest@ == ms.subrange(done as int, ms.len() as int),
                mv == crate::config::macros_view(ms),
                h0.hotkeys == Seq::<(Seq<char>, HotkeyInfoV)>::empty(),
                hooks@ == (HookV { hotkeys: registered_hotkeys(mv.take(done as int)), ..h0 }),
                crate::namemap::sorted_keys(hooks@.hotkeys),
                self.profile@ == registered_profile(mv.take(done as int)),
                self.running@ == registered_running(mv.take(done as int)),
                forall|k: int| 0 <= k < self.running@.len() ==> !(#[trigger] self.running@[k]).1,
                crate::namemap::sorted_keys(self.running@),
                forall|i: int|
                    0 <= i < done && lowercase(ms[i].hotkey@).len() > 0 ==> lookup(
                        self.running@,
                        lowercase(#[trigger] ms[i].hotkey@),
                    ) == Some(false),
            decreases rest.len(),
        {
            let m = rest.remove(0);
            let ghost mview = m@;
            proof {
                assert(ms[done as int] == m);
                assert(mv[done as int] == mview);
                assert(mv.take(done + 1).drop_last() =~= mv.take(done as int));
                assert(mv.take(done + 1).last() == mview);
            }
            let hk = to_lowercase(m.hotkey.as_str());
            if !hk.as_str().is_empty() {
                let mode = parse_mode(m.mode.as_str());
                let ghost hs0 = hooks@.hotkeys;
                hooks.register_hotkey(hk.as_str(), mode);
                hooks.set_enabled(hk.as_str(), m.enabled);
                proof {
                    crate::namemap::lemma_insert_then_update(
                        hs0,
                        lowercase(hk@),
                        HotkeyInfoV { state: HotkeyState::Idle, enabled: true, mode },
                        hook_entry(mview),
                    );
                    assert(hooks@.hotkeys == insert_spec(hs0, lowercase(hk@), hook_entry(mview)));
                    let hs1 = hooks@.hotkeys;
                    let hs_mid = insert_spec(hs0, lowercase(hk@), HotkeyInfoV { state: HotkeyState::Idle, enabled: true, mode });
                    assert forall|a: int, b: int| 0 <= a < b < hs1.len() implies crate::namemap::key_lt(
                        #[trigger] hs1[a].0,
                        #[trigger] hs1[b].0,
                    ) by {
                        assert(hs1[a].0 == hs_mid[a].0);
                        assert(hs1[b].0 == hs_mid[b].0);
                    }
                }
                self.profile.insert(hk.clone(), m);
                let ghost r0 = self.running@;
                self.running.insert(hk.clone(), false);
                proof {
                    crate::namemap::lemma_insert_spec_facts(r0, hk@, false);
                    let r1 = self.running@;
                    assert forall|k: int| 0 <= k < r1.len() implies !(#[trigger] r1[k]).1 by {
                        if r1[k].0 != hk@ {
                            let j = choose|j: int| 0 <= j < r0.len() && r0[j] == r1[k];
                            assert(!r0[j].1);
                        }
                    }
                    assert(m@ == ms[done as int]@);
                    assert forall|i: int|
                        0 <= i < done + 1 && lowercase(ms[i].hotkey@).len() > 0 implies lookup(
                        r1,
                        lowercase(#[trigger] ms[i].hotkey@),
                    ) == Some(false) by {
                        let name = lowercase(ms[i].hotkey@);
                        crate::namemap::lemma_insert_lookup(r0, hk@, false, name);
                    }
                }
            }
            done += 1;
        }
        proof {
            assert(mv.take(mv.len() as int) =~= mv);
        }
        kb_needed
    }
}

/// Whether a hold or toggle macro keeps going for another round: it is
/// still flagged running, a hold macro's key is still held, a toggle
/// macro's hotkey is still on, it is enabled, nothing is paused, and the
/// engine is on.
pub open spec fn keep_holding_spec(
    running: bool,
    mode: Seq<char>,
    physically_down: bool,
    hotkey_active: bool,
    enabled: bool,
    paused: bool,
    engine_active: bool,
) -> bool {
    running && (mode == "hold"@ ==> physically_down) && (mode == "toggle"@ ==> hotkey_active) && enabled
        && !paused && engine_active
}

pub fn keep_holding(
    running: bool,
    mode: &str,
    physically_down: bool,
    hotkey_active: bool,
    enabled: bool,
    paused: bool,
    engine_active: bool,
) -> (r: bool)
    ensures
        r == keep_holding_spec(running, mode@, physically_down, hotkey_active, enabled, paused, engine_active),
{
    if !running {
        return false;
    }
    if str_eq(mode, "hold") && !physically_down {
        return false;
    }
    if str_eq(mode, "toggle") && !hotkey_active {
        return false;
    }
    if !enabled || paused {
        return false;
    }
    engine_active
}

/// A hold macro's repeat interval in milliseconds: its delay, at least 1.
pub fn hold_interval(delay: i32) -> (r: i32)
    ensures
        r == if delay < 1 {
            1
        } else {
            delay
        },
{
    if delay < 1 {
        1
    } else {
        delay
    }
}

/// Whether the hold macro has run past its automatic stop.
pub fn hold_expired(max_seconds: Option<u64>, elapsed_ms: u64) -> (r: bool)
    ensures
        r == match max_seconds {
            Some(s) => elapsed_ms > s * 1000,
            None => false,
        },
{
    match max_seconds {
        Some(s) => {
            if s > u64::MAX / 1000 {
                false
            } else {
                elapsed_ms > s * 1000
            }
        },
        None => false,
    }
}

// ── The global toggle key ───────────────────────────────────────────────

/// Caps, Num and Scroll Lock follow their toggle state; other keys flip on
/// each press.
pub open spec fn lock_key_name(k: Seq<char>) -> bool {
    k == "scrolllock"@ || k == "capslock"@ || k == "numlock"@
}

/// The toggle key watcher's memory of the last state it saw.
pub struct ToggleWatch {
    pub was_down: bool,
}

impl ToggleWatch {
    pub fn new() -> (r: ToggleWatch)
        ensures
            !r.was_down,
    {
        ToggleWatch { was_down: false }
    }

    /// One poll of the toggle key: `lock_on` is a lock key's toggle state,
    /// `down` an ordinary key's held state. Returns whether the macros'
    /// enabled state flips.
    pub fn step(&mut self, key: &str, lock_on: bool, down: bool) -> (flip: bool)
        ensures
            lock_key_name(lowercase(key@)) ==> flip == (lock_on != old(self).was_down) && final(self).was_down
                == lock_on,
            !lock_key_name(lowercase(key@)) ==> flip == (down && !old(self).was_down) && final(self).was_down
                == down,
    {
        let k = to_lowercase(key);
        let is_lock = str_eq(k.as_str(), "scrolllock") || str_eq(k.as_str(), "capslock") || str_eq(
            k.as_str(),
            "numlock",
        );
        if is_lock {
            if lock_on != self.was_down {
                self.was_down = lock_on;
                true
            } else {
                false
            }
        } else {
            if down && !self.was_down {
                self.was_down = true;
                true
            } else {
                if !down {
                    self.was_down = false;
                }
                false
            }
        }
    }
}

// ── The game detector ───────────────────────────────────────────────────

/// What the detector last reported.
pub struct DetectorState {
    pub game_in_focus: bool,
    pub game_present: bool,
    pub prev_active: bool,
    pub prev_foreground: Option<(bool, bool)>,
}

/// The reports one detector tick makes.
#[derive(Clone, Copy, Debug, PartialEq, Eq)]
pub struct DetectorReport {
    /// The new "game active" state, when it changed.
    pub active: Option<bool>,
    /// The new (focused, present) pair, when it changed.
    pub foreground: Option<(bool, bool)>,
}

impl DetectorState {
    pub fn new() -> (r: DetectorState)
        ensures
            !r.game_in_focus && !r.game_present && !r.prev_active && r.prev_foreground is None,
    {
        DetectorState { game_in_focus: false, game_present: false, prev_active: false, prev_foreground: None }
    }

    /// One detector tick: the game is present when focused or when a live
    /// game process was found; each observer is told only of a change.
    pub fn check_window(&mut self, focused: bool, live_game_found: bool) -> (r: DetectorReport)
        ensures
            final(self).game_in_focus == focused,
            final(self).game_present == (focused || live_game_found),
            r.active == if focused != old(self).game_in_focus && focused != old(self).prev_active {
                Some(focused)
            } else {
                None::<bool>
            },
            final(self).prev_active == if focused != old(self).game_in_focus {
                focused
            } else {
                old(self).prev_active
            },
            r.foreground == if old(self).prev_foreground == Some((focused, focused || live_game_found)) {
                None::<(bool, bool)>
            } else {
                Some((focused, focused || live_game_found))
            },
            final(self).prev_foreground == Some((focused, focused || live_game_found)),
    {
        let present = focused || live_game_found;
        let was_focused = self.game_in_focus;
        self.game_in_focus = focused;
        self.game_present = present;
        let mut active: Option<bool> = None;
        if was_focused != focused {
            let prev = self.prev_active;
            self.prev_active = focused;
            if prev != focused {
                active = Some(focused);
            }
        }
        let cur = (focused, present);
        let foreground = match self.prev_foreground {
            Some(p) => {
                if p.0 == cur.0 && p.1 == cur.1 {
                    None
                } else {
                    Some(cur)
                }
            },
            None => Some(cur),
        };
        self.prev_foreground = Some(cur);
        DetectorReport { active, foreground }
    }
}

} // verus!
