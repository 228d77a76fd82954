//! The platform layer's own state and decisions: which keys are held,
//! which injected keys are still down, the cursor, the screen size, the
//! focused process, and how each input event is routed.
//!
//! Reading devices, injecting through uinput and capturing the screen are
//! done by the caller; the functions here take what those produced.

use vstd::prelude::*;
use std::collections::HashMap;
use crate::keys::{code_name, key_code, mouse_name, name_to_vk, vk_to_name, is_mouse_key};
use crate::text::{lowercase, owned, str_eq};

verus! {

broadcast use vstd::std_specs::hash::group_hash_axioms;

/// A native top-level window; on Linux, the focused process id.
#[derive(Clone, Copy, Debug, PartialEq, Eq, Structural)]
pub struct WindowHandle(pub u64);

impl WindowHandle {
    pub fn is_null(self) -> (r: bool)
        ensures
            r == (self.0 == 0),
    {
        self.0 == 0
    }
}

impl Default for WindowHandle {
    fn default() -> (r: WindowHandle)
        ensures
            r.0 == 0,
    {
        WindowHandle(0)
    }
}

/// What installing a global hook hands back.
#[derive(Clone, Copy, Debug, PartialEq, Eq, Structural)]
pub struct HookHandle(pub i32);

/// A window rectangle.
#[derive(Clone, Copy, Debug, PartialEq, Eq, Structural)]
pub struct RECT {
    pub left: i32,
    pub top: i32,
    pub right: i32,
    pub bottom: i32,
}

impl Default for RECT {
    fn default() -> (r: RECT)
        ensures
            r == (RECT { left: 0, top: 0, right: 0, bottom: 0 }),
    {
        RECT { left: 0, top: 0, right: 0, bottom: 0 }
    }
}

/// The platform layer's state.
pub struct PlatformState {
    /// The last seen up/down state of each key code.
    pub key_state: HashMap<u16, bool>,
    /// The toggled state of the lock keys (Caps, Num, Scroll Lock).
    pub lock_state: HashMap<u16, bool>,
    pub cursor_x: i32,
    pub cursor_y: i32,
    pub screen_w: i32,
    pub screen_h: i32,
    /// Key codes the virtual device holds down, each once, oldest first.
    pub injected_down: Vec<u16>,
    /// Some registered hotkey is a keyboard key, so keyboards are grabbed.
    pub key_grab_needed: bool,
    /// The focused process id; 0 when unknown.
    pub focused_pid: u32,
    pub keyboard_hook: bool,
    pub mouse_hook: bool,
}

/// Each code at most once.
pub open spec fn no_dups(s: Seq<u16>) -> bool {
    forall|i: int, j: int| 0 <= i < j < s.len() ==> s[i] != s[j]
}

impl PlatformState {
    pub fn new() -> (r: PlatformState)
        ensures
            r.key_state@ == Map::<u16, bool>::empty(),
            r.lock_state@ == Map::<u16, bool>::empty(),
            r.cursor_x == 0,
            r.cursor_y == 0,
            r.screen_w == 1920,
            r.screen_h == 1080,
            r.injected_down@ == Seq::<u16>::empty(),
            !r.key_grab_needed,
            r.focused_pid == 0,
            !r.keyboard_hook,
            !r.mouse_hook,
    {
        PlatformState {
            key_state: HashMap::new(),
            lock_state: HashMap::new(),
            cursor_x: 0,
            cursor_y: 0,
            screen_w: 1920,
            screen_h: 1080,
            injected_down: Vec::new(),
            key_grab_needed: false,
            focused_pid: 0,
            keyboard_hook: false,
            mouse_hook: false,
        }
    }
}

// ── Injected keys ───────────────────────────────────────────────────────

/// Every code but `code`.
pub open spec fn other_than(code: u16) -> spec_fn(u16) -> bool {
    |c: u16| c != code
}

/// The held set after the virtual device sends `code` down or up.
pub open spec fn injected_after(s: Seq<u16>, code: u16, up: bool) -> Seq<u16> {
    if up {
        s.filter(other_than(code))
    } else if s.contains(code) {
        s
    } else {
        s.push(code)
    }
}

/// Record that the virtual device sent `code` down (`up == false`) or up.
pub fn track_injected(state: &mut PlatformState, code: u16, up: bool)
    requires
        no_dups(old(state).injected_down@),
    ensures
        final(state).injected_down@ == injected_after(old(state).injected_down@, code, up),
        no_dups(final(state).injected_down@),
        final(state).key_state@ == old(state).key_state@,
        final(state).lock_state@ == old(state).lock_state@,
        final(state).focused_pid == old(state).focused_pid,
{
    let ghost s0 = state.injected_down@;
    if up {
        let mut kept: Vec<u16> = Vec::new();
        let mut i: usize = 0;
        while i < state.injected_down.len()
            invariant
                i <= state.injected_down@.len(),
                state.injected_down@ == s0,
                no_dups(s0),
                kept@ == s0.take(i as int).filter(other_than(code)),
                forall|a: int, b: int| 0 <= a < b < kept@.len() ==> kept@[a] != kept@[b],
                forall|a: int| 0 <= a < kept@.len() ==> s0.take(i as int).contains(#[trigger] kept@[a]),
            decreases state.injected_down@.len() - i,
        {
            let c = state.injected_down[i];
            proof {
                assert(s0.take(i + 1).drop_last() =~= s0.take(i as int));
                assert(s0.take(i + 1).last() == c);
                reveal(Seq::filter);
                assert(s0.take(i + 1).filter(other_than(code)) == if c != code {
                    s0.take(i as int).filter(other_than(code)).push(c)
                } else {
                    s0.take(i as int).filter(other_than(code))
                });
            }
            if c != code {
                proof {
                    assert forall|a: int| 0 <= a < kept@.len() implies kept@[a] != c by {
                        let k = choose|k: int| 0 <= k < i && s0.take(i as int)[k] == kept@[a];
                        assert(s0[k] == kept@[a]);
                    }
                }
                kept.push(c);
            }
            proof {
                assert forall|a: int| 0 <= a < kept@.len() implies s0.take(i + 1).contains(#[trigger] kept@[a]) by {
                    if a < kept@.len() - 1 || c == code {
                        let k = choose|k: int| 0 <= k < i && s0.take(i as int)[k] == kept@[a];
                        assert(s0.take(i + 1)[k] == kept@[a]);
                    } else {
                        assert(s0.take(i + 1)[i as int] == kept@[a]);
                    }
                }
            }
            i += 1;
        }
        proof {
            assert(s0.take(s0.len() as int) =~= s0);
        }
        state.injected_down = kept;
    } else {
        let mut present = false;
        let mut i: usize = 0;
        while i < state.injected_down.len()
            invariant
                i <= state.injected_down@.len(),
                state.injected_down@ == s0,
                present == s0.take(i as int).contains(code),
            decreases state.injected_down@.len() - i,
        {
            proof {
                assert(s0.take(i + 1) =~= s0.take(i as int).push(s0[i as int]));
            }
            if state.injected_down[i] == code {
                present = true;
            }
            proof {
                if s0[i as int] == code {
                    assert(s0.take(i + 1)[i as int] == code);
                }
                if s0.take(i as int).contains(code) {
                    let k = choose|k: int| 0 <= k < i && #[trigger] s0.take(i as int)[k] == code;
                    assert(s0.take(i + 1)[k] == code);
                }
                if s0.take(i + 1).contains(code) {
                    let k = choose|k: int| 0 <= k < i + 1 && #[trigger] s0.take(i + 1)[k] == code;
                    if k < i {
                        assert(s0.take(i as int)[k] == code);
                    }
                }
            }
            i += 1;
        }
        proof {
            assert(s0.take(s0.len() as int) =~= s0);
        }
        if !present {
            state.injected_down.push(code);
            proof {
                assert forall|a: int, b: int| 0 <= a < b < state.injected_down@.len() implies state.injected_down@[a] != state.injected_down@[b] by {
                    if b == s0.len() {
                        assert(s0[a] != code);
                    }
                }
            }
        }
    }
}

/// Release every key the virtual device still holds: hands back the codes
/// to send up, oldest first, and forgets them.
pub fn release_all_injected(state: &mut PlatformState) -> (r: Vec<u16>)
    ensures
        r@ == old(state).injected_down@,
        final(state).injected_down@ == Seq::<u16>::empty(),
        final(state).key_state@ == old(state).key_state@,
        final(state).focused_pid == old(state).focused_pid,
{
    let mut out: Vec<u16> = Vec::new();
    std::mem::swap(&mut out, &mut state.injected_down);
    out
}

/// Release one key by name: the code to send up, when the name is a key
/// (it is then no longer held).
pub fn release_key(state: &mut PlatformState, key: &str) -> (r: Option<u16>)
    requires
        no_dups(old(state).injected_down@),
    ensures
        key_code(lowercase(key@)) == 0 ==> r is None && final(state).injected_down@ == old(state).injected_down@,
        key_code(lowercase(key@)) != 0 ==> r == Some(key_code(lowercase(key@)))
            && final(state).injected_down@ == injected_after(
            old(state).injected_down@,
            key_code(lowercase(key@)),
            true,
        ),
        no_dups(final(state).injected_down@),
{
    let code = name_to_vk(key);
    if code != 0 {
        track_injected(state, code, true);
        Some(code)
    } else {
        None
    }
}

/// Record whether keyboards must be grabbed; tells whether it changed.
pub fn set_keyboard_grab_needed(state: &mut PlatformState, needed: bool) -> (changed: bool)
    ensures
        final(state).key_grab_needed == needed,
        changed == (old(state).key_grab_needed != needed),
{
    let changed = state.key_grab_needed != needed;
    state.key_grab_needed = needed;
    changed
}

// ── Key and cursor state ────────────────────────────────────────────────

/// Whether a code is a lock key (Caps, Num or Scroll Lock).
pub open spec fn is_lock_code(code: u16) -> bool {
    code == 58 || code == 69 || code == 70
}

/// Record a physical key event: its up/down state, and a press of a lock
/// key flips that lock.
pub fn record_key_event(state: &mut PlatformState, code: u16, down: bool)
    ensures
        final(state).key_state@ == old(state).key_state@.insert(code, down),
        final(state).lock_state@ == if is_lock_code(code) && down {
            old(state).lock_state@.insert(
                code,
                !(old(state).lock_state@.contains_key(code) && old(state).lock_state@[code]),
            )
        } else {
            old(state).lock_state@
        },
        final(state).injected_down@ == old(state).injected_down@,
        final(state).focused_pid == old(state).focused_pid,
{
    state.key_state.insert(code, down);
    if (code == 58 || code == 69 || code == 70) && down {
        let cur = match state.lock_state.get(&code) {
            Some(v) => *v,
            None => false,
        };
        state.lock_state.insert(code, !cur);
    }
}

/// Whether a key is held, by its code.
pub fn get_async_key_state(state: &PlatformState, vk: i32) -> (r: bool)
    ensures
        r == (state.key_state@.contains_key(vk as u16) && state.key_state@[vk as u16]),
{
    let code = vk as u16;
    match state.key_state.get(&code) {
        Some(d) => *d,
        None => false,
    }
}

/// The toggle state of a lock key: 1 when on, else 0.
pub fn get_key_state_toggled(state: &PlatformState, vk: i32) -> (r: u16)
    ensures
        r == if state.lock_state@.contains_key(vk as u16) && state.lock_state@[vk as u16] {
            1u16
        } else {
            0u16
        },
{
    let code = vk as u16;
    let on = match state.lock_state.get(&code) {
        Some(d) => *d,
        None => false,
    };
    if on {
        1
    } else {
        0
    }
}

pub open spec fn clamp_spec(v: int, lo: int, hi: int) -> int {
    if v < lo {
        lo
    } else if v > hi {
        hi
    } else {
        v
    }
}

/// The largest coordinate on a screen axis of `size` pixels.
pub open spec fn last_coord(size: i32) -> int {
    if size < 1 {
        0
    } else {
        size - 1
    }
}

/// Move the tracked cursor by a relative motion, kept on the screen.
pub fn move_cursor(state: &mut PlatformState, dx: i32, dy: i32)
    requires
        i32::MIN <= old(state).cursor_x + dx <= i32::MAX,
        i32::MIN <= old(state).cursor_y + dy <= i32::MAX,
    ensures
        (dx != 0 || dy != 0) ==> final(state).cursor_x == clamp_spec(
            old(state).cursor_x + dx,
            0,
            last_coord(old(state).screen_w),
        ),
        (dx != 0 || dy != 0) ==> final(state).cursor_y == clamp_spec(
            old(state).cursor_y + dy,
            0,
            last_coord(old(state).screen_h),
        ),
        (dx == 0 && dy == 0) ==> final(state).cursor_x == old(state).cursor_x && final(state).cursor_y
            == old(state).cursor_y,
        final(state).screen_w == old(state).screen_w,
        final(state).screen_h == old(state).screen_h,
        final(state).key_state@ == old(state).key_state@,
        final(state).injected_down@ == old(state).injected_down@,
{
    if dx == 0 && dy == 0 {
        return;
    }
    let mut x = state.cursor_x + dx;
    let mut y = state.cursor_y + dy;
    let max_x = if state.screen_w < 1 {
        0
    } else {
        state.screen_w - 1
    };
    let max_y = if state.screen_h < 1 {
        0
    } else {
        state.screen_h - 1
    };
    if x < 0 {
        x = 0;
    } else if x > max_x {
        x = max_x;
    }
    if y < 0 {
        y = 0;
    } else if y > max_y {
        y = max_y;
    }
    state.cursor_x = x;
    state.cursor_y = y;
}

pub fn get_cursor_pos(state: &PlatformState) -> (r: (i32, i32))
    ensures
        r == (state.cursor_x, state.cursor_y),
{
    (state.cursor_x, state.cursor_y)
}

// ── Windows and focus ───────────────────────────────────────────────────

/// The focused window: the focused process id, 0 when unknown.
pub fn get_foreground_window(state: &PlatformState) -> (r: WindowHandle)
    ensures
        r.0 == state.focused_pid as u64,
{
    WindowHandle(state.focused_pid as u64)
}

/// Refresh the focused process from the compositor probes: Niri's answer
/// first, then X11's; with neither the focus is unknown (0) — a stale id is
/// never kept.
pub fn refresh_foreground_cache(state: &mut PlatformState, niri: Option<u32>, x11: Option<u32>)
    ensures
        final(state).focused_pid == match niri {
            Some(p) => p,
            None => match x11 {
                Some(p) => p,
                None => 0,
            },
        },
        final(state).key_state@ == old(state).key_state@,
        final(state).injected_down@ == old(state).injected_down@,
{
    state.focused_pid = match niri {
        Some(p) => p,
        None => match x11 {
            Some(p) => p,
            None => 0,
        },
    };
}

/// Set the focused process from a compositor event (`None` clears it);
/// tells whether it changed.
pub fn set_focused_pid_from_event(state: &mut PlatformState, pid: Option<u32>) -> (changed: bool)
    ensures
        final(state).focused_pid == match pid {
            Some(p) => p,
            None => 0,
        },
        changed == (old(state).focused_pid != final(state).focused_pid),
        final(state).key_state@ == old(state).key_state@,
        final(state).injected_down@ == old(state).injected_down@,
{
    let new = match pid {
        Some(p) => p,
        None => 0,
    };
    let changed = state.focused_pid != new;
    state.focused_pid = new;
    changed
}

/// The thread and process of a window: no thread, and the window's
/// process id.
pub fn get_window_thread_process_id(hwnd: WindowHandle) -> (r: (u32, u32))
    ensures
        r == (0u32, hwnd.0 as u32),
{
    (0, hwnd.0 as u32)
}

/// Every window handle counts as valid.
pub fn is_window_valid(hwnd: WindowHandle) -> (r: bool)
    ensures
        r,
{
    true
}

/// Every window handle counts as visible.
pub fn is_window_visible(hwnd: WindowHandle) -> (r: bool)
    ensures
        r,
{
    true
}

/// A window covers the whole screen.
pub fn get_window_rect(state: &PlatformState, hwnd: WindowHandle) -> (r: Option<RECT>)
    ensures
        r == Some(RECT { left: 0, top: 0, right: state.screen_w, bottom: state.screen_h }),
{
    Some(RECT { left: 0, top: 0, right: state.screen_w, bottom: state.screen_h })
}

/// The screen size, updated from a capture's dimensions when there is one.
pub fn get_screen_resolution(state: &mut PlatformState, captured: Option<(i32, i32)>) -> (r: (i32, i32))
    ensures
        match captured {
            Some((w, h)) => final(state).screen_w == w && final(state).screen_h == h,
            None => final(state).screen_w == old(state).screen_w && final(state).screen_h == old(
                state,
            ).screen_h,
        },
        r == (final(state).screen_w, final(state).screen_h),
        final(state).key_state@ == old(state).key_state@,
        final(state).injected_down@ == old(state).injected_down@,
{
    match captured {
        Some((w, h)) => {
            state.screen_w = w;
            state.screen_h = h;
        },
        None => {},
    }
    (state.screen_w, state.screen_h)
}

/// Nothing to show or hide on Linux: the program has no console window.
pub fn set_console_visibility(visible: bool) {
}

/// Linux pins no macro thread to a core.
pub fn set_macro_thread_affinity() {
}

/// Install the keyboard hook; it is handed back as handle 1.
pub fn set_keyboard_hook(state: &mut PlatformState) -> (r: Result<HookHandle, String>)
    ensures
        r == Ok::<HookHandle, String>(HookHandle(1)),
        final(state).keyboard_hook,
        final(state).mouse_hook == old(state).mouse_hook,
{
    state.keyboard_hook = true;
    Ok(HookHandle(1))
}

/// Install the mouse hook; it is handed back as handle 2.
pub fn set_mouse_hook(state: &mut PlatformState) -> (r: Result<HookHandle, String>)
    ensures
        r == Ok::<HookHandle, String>(HookHandle(2)),
        final(state).mouse_hook,
        final(state).keyboard_hook == old(state).keyboard_hook,
{
    state.mouse_hook = true;
    Ok(HookHandle(2))
}

/// Hooks are torn down with the hook loop; a single hook needs nothing.
pub fn unhook(hook: HookHandle) {
}


// ── Routing a key event from a grabbed device ───────────────────────────

/// Which hook callback a key event from a grabbed device goes to.
#[derive(Clone, Copy, Debug, PartialEq, Eq, Structural)]
pub enum EventRoute {
    Keyboard,
    Mouse,
    Passthrough,
}

/// The primary keyboard's events go to the mouse callback when they are
/// mouse buttons (hybrid devices) and to the keyboard callback otherwise;
/// the other grabbed devices' events pass through untouched.
pub fn grabbed_event_route(is_primary: bool, is_mouse: bool) -> (r: EventRoute)
    ensures
        r == if is_primary {
            if is_mouse {
                EventRoute::Mouse
            } else {
                EventRoute::Keyboard
            }
        } else {
            EventRoute::Passthrough
        },
{
    if is_primary {
        if is_mouse {
            EventRoute::Mouse
        } else {
            EventRoute::Keyboard
        }
    } else {
        EventRoute::Passthrough
    }
}

/// What to do with a key event once its state is recorded.
#[derive(Debug, PartialEq, Eq)]
pub enum KeyDispatch {
    /// Nothing more.
    Ignore,
    /// An ungrabbed mouse button: tell the mouse callback (it can never be
    /// swallowed), re-emit nothing.
    ObserveMouse(String),
    /// Re-emit the event unchanged.
    Reemit,
    /// Ask the callback of this route whether to swallow the event; the
    /// flag says whether the key is a mouse button.
    Ask(EventRoute, String, bool),
}

pub open spec fn dispatch_spec(code: u16, grabbed: bool, is_primary: bool) -> (int, EventRoute, Seq<char>, bool) {
    let name = code_name(code);
    let mouse = mouse_name(lowercase(name));
    if !grabbed {
        if name.len() > 0 && mouse {
            (1, EventRoute::Passthrough, name, true)
        } else {
            (0, EventRoute::Passthrough, name, mouse)
        }
    } else if name.len() == 0 {
        (2, EventRoute::Passthrough, name, mouse)
    } else if !is_primary {
        (2, EventRoute::Passthrough, name, mouse)
    } else {
        (3, if mouse { EventRoute::Mouse } else { EventRoute::Keyboard }, name, mouse)
    }
}

pub open spec fn dispatch_matches(d: KeyDispatch, code: u16, grabbed: bool, is_primary: bool) -> bool {
    let (kind, route, name, mouse) = dispatch_spec(code, grabbed, is_primary);
    match d {
        KeyDispatch::Ignore => kind == 0,
        KeyDispatch::ObserveMouse(n) => kind == 1 && n@ == name,
        KeyDispatch::Reemit => kind == 2,
        KeyDispatch::Ask(r, n, m) => kind == 3 && r == route && n@ == name && m == mouse,
    }
}

/// How a key event is handled. From an ungrabbed device only mouse buttons
/// are reported (to the mouse callback); from a grabbed one, a key with no
/// name or from a device other than the primary keyboard is re-emitted,
/// and the rest goes to the callback its route names.
pub fn plan_key_event(code: u16, grabbed: bool, is_primary: bool) -> (r: KeyDispatch)
    ensures
        dispatch_matches(r, code, grabbed, is_primary),
{
    let name = vk_to_name(code);
    let mouse = is_mouse_key(name.as_str());
    if !grabbed {
        if !name.as_str().is_empty() && mouse {
            return KeyDispatch::ObserveMouse(name);
        }
        return KeyDispatch::Ignore;
    }
    if name.as_str().is_empty() {
        return KeyDispatch::Reemit;
    }
    let route = grabbed_event_route(is_primary, mouse);
    match route {
        EventRoute::Passthrough => KeyDispatch::Reemit,
        _ => KeyDispatch::Ask(route, name, mouse),
    }
}

/// Whether a grabbed event the callback was asked about is re-emitted:
/// when it was not swallowed, and always for a mouse button's release (so
/// the desktop never sees a button stuck down).
pub fn reemit_after_callback(down: bool, is_mouse: bool, suppress: bool) -> (r: bool)
    ensures
        r == (!suppress || (!down && is_mouse)),
{
    !suppress || (!down && is_mouse)
}


// ── A device reader's own state ─────────────────────────────────────────

/// What a device reader does after a failed read.
#[derive(Clone, Copy, Debug, PartialEq, Eq, Structural)]
pub enum ReadFailure {
    /// Nothing was ready: poll again.
    Idle,
    /// A transient error: wait a moment and retry (the flag says whether it
    /// is the first of a run, worth reporting).
    Retry(bool),
    /// The device is gone, or has failed too often: stop reading it.
    Exit,
}

/// How many failed reads in a row end a device reader.
pub const MAX_READ_ERRORS: u32 = 50;

/// One device reader's state: whether it holds the device grabbed, its run
/// of failed reads, and the keys this device reported down (each once, in
/// the order they went down).
pub struct ReaderState {
    pub grabbed: bool,
    pub consecutive_errors: u32,
    pub held: Vec<u16>,
}

impl ReaderState {
    pub open spec fn held_view(&self) -> Seq<u16> {
        self.held@
    }

    pub fn new() -> (r: ReaderState)
        ensures
            !r.grabbed,
            r.consecutive_errors == 0,
            r.held_view() == Seq::<u16>::empty(),
    {
        ReaderState { grabbed: false, consecutive_errors: 0, held: Vec::new() }
    }

    /// The grab state to switch to, when it differs from the current one:
    /// a keyboard is grabbed exactly while some hotkey needs keyboard keys.
    pub fn grab_change(&self, is_keyboard: bool, grab_needed: bool) -> (r: Option<bool>)
        ensures
            r == if (is_keyboard && grab_needed) != self.grabbed {
                Some(is_keyboard && grab_needed)
            } else {
                None
            },
    {
        let want = is_keyboard && grab_needed;
        if want != self.grabbed {
            Some(want)
        } else {
            None
        }
    }

    /// A key event this device reported: a press adds the key to the held
    /// ones (once), a release removes it.
    pub fn note_key(&mut self, code: u16, down: bool)
        requires
            no_dups(old(self).held_view()),
        ensures
            no_dups(final(self).held_view()),
            final(self).grabbed == old(self).grabbed,
            final(self).consecutive_errors == old(self).consecutive_errors,
            final(self).held_view().to_set() == if down {
                old(self).held_view().to_set().insert(code)
            } else {
                old(self).held_view().to_set().remove(code)
            },
    {
        let mut i: usize = 0;
        while i < self.held.len()
            invariant
                i <= self.held@.len(),
                forall|j: int| 0 <= j < i ==> self.held@[j] != code,
            ensures
                i <= self.held@.len(),
                forall|j: int| 0 <= j < i ==> self.held@[j] != code,
                i < self.held@.len() ==> self.held@[i as int] == code,
            decreases self.held@.len() - i,
        {
            if self.held[i] == code {
                break;
            }
            i += 1;
        }
        let ghost h0 = self.held@;
        assert(no_dups(h0));
        if i < self.held.len() {
            if !down {
                self.held.remove(i);
                proof {
                    assert forall|x: u16| #[trigger] self.held@.contains(x) <==> (h0.contains(x) && x != code) by {
                        if h0.contains(x) && x != code {
                            let k = choose|k: int| 0 <= k < h0.len() && h0[k] == x;
                            if k < i {
                                assert(self.held@[k] == x);
                            } else {
                                assert(self.held@[k - 1] == x);
                            }
                        }
                        if self.held@.contains(x) {
                            let k = choose|k: int| 0 <= k < self.held@.len() && self.held@[k] == x;
                            if k < i {
                                assert(h0[k] == x);
                            } else {
                                assert(h0[k + 1] == x);
                            }
                        }
                    }
                    assert(self.held@.to_set() =~= h0.to_set().remove(code));
                    assert forall|a: int, b: int| 0 <= a < b < self.held@.len() implies self.held@[a] != self.held@[b] by {
                        let a0 = if a < i { a } else { a + 1 };
                        let b0 = if b < i { b } else { b + 1 };
                        assert(self.held@[a] == h0[a0]);
                        assert(self.held@[b] == h0[b0]);
                    }
                }
            } else {
                proof {
                    assert(h0.contains(code));
                    assert(h0.to_set() =~= h0.to_set().insert(code));
                }
            }
        } else {
            if down {
                self.held.push(code);
                proof {
                    assert forall|x: u16| #[trigger] self.held@.contains(x) <==> (h0.contains(x) || x == code) by {
                        if h0.contains(x) {
                            let k = choose|k: int| 0 <= k < h0.len() && h0[k] == x;
                            assert(self.held@[k] == x);
                        }
                        if x == code {
                            assert(self.held@[h0.len() as int] == x);
                        }
                        if self.held@.contains(x) {
                            let k = choose|k: int| 0 <= k < self.held@.len() && self.held@[k] == x;
                            if k < h0.len() {
                                assert(h0[k] == x);
                            }
                        }
                    }
                    assert(self.held@.to_set() =~= h0.to_set().insert(code));
                    assert forall|a: int, b: int| 0 <= a < b < self.held@.len() implies self.held@[a] != self.held@[b] by {
                        if b == h0.len() {
                            assert(self.held@[a] == h0[a]);
                        }
                    }
                }
            } else {
                proof {
                    assert(!h0.contains(code));
                    assert(h0.to_set() =~= h0.to_set().remove(code));
                }
            }
        }
    }

    /// A successful read ends any run of failures.
    pub fn note_read_ok(&mut self)
        ensures
            final(self).consecutive_errors == 0,
            final(self).grabbed == old(self).grabbed,
            final(self).held_view() == old(self).held_view(),
    {
        self.consecutive_errors = 0;
    }

    /// A failed read: an empty poll is nothing; a vanished device ends the
    /// reader; any other error counts, and the fiftieth in a row ends it.
    pub fn note_read_error(&mut self, would_block: bool, device_gone: bool) -> (r: ReadFailure)
        requires
            old(self).consecutive_errors < MAX_READ_ERRORS,
        ensures
            final(self).grabbed == old(self).grabbed,
            final(self).held_view() == old(self).held_view(),
            would_block ==> r == ReadFailure::Idle && final(self).consecutive_errors == old(self).consecutive_errors,
            !would_block && device_gone ==> r == ReadFailure::Exit && final(self).consecutive_errors
                == old(self).consecutive_errors,
            !would_block && !device_gone ==> final(self).consecutive_errors == old(self).consecutive_errors + 1
                && r == if old(self).consecutive_errors + 1 >= MAX_READ_ERRORS {
                ReadFailure::Exit
            } else {
                ReadFailure::Retry(old(self).consecutive_errors == 0)
            },
            r != ReadFailure::Exit ==> final(self).consecutive_errors < MAX_READ_ERRORS,
    {
        if would_block {
            return ReadFailure::Idle;
        }
        if device_gone {
            return ReadFailure::Exit;
        }
        self.consecutive_errors = self.consecutive_errors + 1;
        if self.consecutive_errors >= MAX_READ_ERRORS {
            ReadFailure::Exit
        } else {
            ReadFailure::Retry(self.consecutive_errors == 1)
        }
    }

    /// The releases to report when the reader ends: every held key that has
    /// a name, by name, with whether it goes to the mouse callback.
    pub fn release_plan(&self) -> (r: Vec<(String, bool)>)
        ensures
            r@.len() <= self.held_view().len(),
            forall|i: int| 0 <= i < r@.len() ==> (#[trigger] r@[i]).0@.len() > 0 && r@[i].1 == mouse_name(
                lowercase(r@[i].0@),
            ) && exists|j: int| 0 <= j < self.held_view().len() && code_name(self.held_view()[j]) == r@[i].0@,
            forall|j: int|
                0 <= j < self.held_view().len() && code_name(#[trigger] self.held_view()[j]).len() > 0
                    ==> exists|i: int| 0 <= i < r@.len() && r@[i].0@ == code_name(self.held_view()[j]),
    {
        let mut out: Vec<(String, bool)> = Vec::new();
        let mut k: usize = 0;
        while k < self.held.len()
            invariant
                k <= self.held@.len(),
                out@.len() <= k,
                forall|i: int| 0 <= i < out@.len() ==> (#[trigger] out@[i]).0@.len() > 0 && out@[i].1 == mouse_name(
                    lowercase(out@[i].0@),
                ) && exists|j: int| 0 <= j < self.held@.len() && code_name(self.held@[j]) == out@[i].0@,
                forall|j: int|
                    0 <= j < k && code_name(#[trigger] self.held@[j]).len() > 0 ==> exists|i: int|
                        0 <= i < out@.len() && out@[i].0@ == code_name(self.held@[j]),
            decreases self.held@.len() - k,
        {
            let name = vk_to_name(self.held[k]);
            if !name.as_str().is_empty() {
                let m = is_mouse_key(name.as_str());
                let ghost out0 = out@;
                out.push((name, m));
                proof {
                    let last = out@.len() - 1;
                    assert(out@[last].0@ == code_name(self.held@[k as int]));
                    assert forall|j: int|
                        0 <= j < k + 1 && code_name(#[trigger] self.held@[j]).len() > 0 implies exists|i: int|
                        0 <= i < out@.len() && out@[i].0@ == code_name(self.held@[j]) by {
                        if j == k {
                            assert(out@[last].0@ == code_name(self.held@[j]));
                        } else {
                            let i0 = choose|i: int| 0 <= i < out0.len() && out0[i].0@ == code_name(self.held@[j]);
                            assert(out@[i0] == out0[i0]);
                        }
                    }
                }
            }
            k += 1;
        }
        out
    }
}

} // verus!
