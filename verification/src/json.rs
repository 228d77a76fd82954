//! JSON read with `serde_json`, mirrored into the library's own value type,
//! and what the program reads out of it: the focused window of a Niri event
//! or query, and the colours of a desktop palette file.

use vstd::prelude::*;
use crate::text::{owned, str_eq};
use vstd::string::StringExecFns;

verus! {

#[verifier::external_type_specification]
#[verifier::external_body]
pub struct ExJsonValue(serde_json::Value);

/// A JSON number as `serde_json` answers for it.
#[derive(Debug, PartialEq, Eq)]
pub struct JsonNumber {
    /// `Number::as_u64`.
    pub as_u64: Option<u64>,
    /// `Number::as_i64`.
    pub as_i64: Option<i64>,
}

/// A JSON value, field for field as `serde_json::Value` holds it; an
/// object's members in the map's order.
#[derive(Debug)]
pub enum JsonValue {
    Null,
    Bool(bool),
    Number(JsonNumber),
    Str(String),
    Array(Vec<JsonValue>),
    Object(Vec<(String, JsonValue)>),
}

pub enum JsonV {
    Null,
    Bool(bool),
    Number(Option<u64>, Option<i64>),
    Str(Seq<char>),
    Array(Seq<JsonV>),
    Object(Seq<(Seq<char>, JsonV)>),
}

pub open spec fn json_view(v: JsonValue) -> JsonV
    decreases v,
{
    match v {
        JsonValue::Null => JsonV::Null,
        JsonValue::Bool(b) => JsonV::Bool(b),
        JsonValue::Number(n) => JsonV::Number(n.as_u64, n.as_i64),
        JsonValue::Str(s) => JsonV::Str(s@),
        JsonValue::Array(items) => JsonV::Array(
            Seq::new(
                items@.len(),
                |i: int|
                    if 0 <= i < items@.len() {
                        json_view(items@[i])
                    } else {
                        JsonV::Null
                    },
            ),
        ),
        JsonValue::Object(members) => JsonV::Object(
            Seq::new(
                members@.len(),
                |i: int|
                    if 0 <= i < members@.len() {
                        (members@[i].0@, json_view(members@[i].1))
                    } else {
                        (Seq::empty(), JsonV::Null)
                    },
            ),
        ),
    }
}

impl View for JsonValue {
    type V = JsonV;

    open spec fn view(&self) -> JsonV {
        json_view(*self)
    }
}

/// What `serde_json::from_str::<Value>` parses a text into; `None` on a
/// syntax error.
pub uninterp spec fn json_text(text: Seq<char>) -> Option<JsonV>;

/// What `serde_json::from_slice::<Value>` parses a byte buffer into;
/// `None` on invalid UTF-8 or a syntax error.
pub uninterp spec fn json_bytes(data: Seq<u8>) -> Option<JsonV>;

/// Parse JSON text with `serde_json::from_str` and mirror the value.
/// Claims only that the result is what the crate parses.
#[verifier::external_body]
pub(crate) fn parse_json(text: &str) -> (r: Option<JsonValue>)
    ensures
        match r {
            Some(v) => json_text(text@) == Some(v@),
            None => json_text(text@) is None,
        },
{
    serde_json::from_str::<serde_json::Value>(text).ok().map(|v| json_mirror(&v))
}

/// Parse a JSON byte buffer with `serde_json::from_slice` and mirror the
/// value. Claims only that the result is what the crate parses.
#[verifier::external_body]
pub(crate) fn parse_json_bytes(data: &[u8]) -> (r: Option<JsonValue>)
    ensures
        match r {
            Some(v) => json_bytes(data@) == Some(v@),
            None => json_bytes(data@) is None,
        },
{
    serde_json::from_slice::<serde_json::Value>(data).ok().map(|v| json_mirror(&v))
}

/// One-for-one mirror of a `serde_json::Value`.
#[verifier::external_body]
fn json_mirror(v: &serde_json::Value) -> JsonValue {
    match v {
        serde_json::Value::Null => JsonValue::Null,
        serde_json::Value::Bool(b) => JsonValue::Bool(*b),
        serde_json::Value::Number(n) => JsonValue::Number(JsonNumber { as_u64: n.as_u64(), as_i64: n.as_i64() }),
        serde_json::Value::String(s) => JsonValue::Str(s.clone()),
        serde_json::Value::Array(a) => JsonValue::Array(a.iter().map(json_mirror).collect()),
        serde_json::Value::Object(m) => JsonValue::Object(m.iter().map(|(k, x)| (k.clone(), json_mirror(x))).collect()),
    }
}

// ── Reading values ──────────────────────────────────────────────────────

/// `Value::get` with a key: the member of an object with that key.
pub open spec fn get_spec(v: JsonV, key: Seq<char>) -> Option<JsonV> {
    match v {
        JsonV::Object(ms) => match crate::document::first_index(ms, |m: (Seq<char>, JsonV)| m.0 == key) {
            Some(i) => Some(ms[i].1),
            None => None,
        },
        _ => None,
    }
}

pub open spec fn str_of(v: Option<JsonV>) -> Option<Seq<char>> {
    match v {
        Some(JsonV::Str(s)) => Some(s),
        _ => None,
    }
}

pub open spec fn u64_of(v: Option<JsonV>) -> Option<u64> {
    match v {
        Some(JsonV::Number(u, _)) => u,
        _ => None,
    }
}

pub open spec fn bool_of(v: Option<JsonV>) -> Option<bool> {
    match v {
        Some(JsonV::Bool(b)) => Some(b),
        _ => None,
    }
}

impl JsonValue {
    /// The member of an object with that key.
    pub fn get(&self, key: &str) -> (r: Option<&JsonValue>)
        ensures
            match r {
                Some(x) => get_spec(self@, key@) == Some(x@),
                None => get_spec(self@, key@) is None,
            },
    {
        match self {
            JsonValue::Object(members) => {
                let ghost ms = match self@ {
                    JsonV::Object(ms) => ms,
                    _ => Seq::empty(),
                };
                let ghost p = |m: (Seq<char>, JsonV)| m.0 == key@;
                let mut i: usize = 0;
                while i < members.len()
                    invariant
                        i <= members@.len(),
                        self@ == JsonV::Object(ms),
                        ms.len() == members@.len(),
                        forall|k: int| 0 <= k < members@.len() ==> #[trigger] ms[k] == (members@[k].0@, members@[k].1@),
                        p == (|m: (Seq<char>, JsonV)| m.0 == key@),
                        forall|k: int| 0 <= k < i ==> !p(#[trigger] ms[k]),
                    decreases members@.len() - i,
                {
                    if str_eq(members[i].0.as_str(), key) {
                        proof {
                            assert(ms[i as int] == (members@[i as int].0@, members@[i as int].1@));
                            assert(p(ms[i as int]));
                            crate::document::lemma_first_index(ms, p, i as int);
                            assert(self@ == JsonV::Object(ms));
                        }
                        return Some(&members[i].1);
                    }
                    i += 1;
                }
                proof {
                    crate::document::lemma_first_index(ms, p, i as int);
                }
                None
            },
            _ => None,
        }
    }

    pub fn as_str(&self) -> (r: Option<&str>)
        ensures
            match r {
                Some(s) => str_of(Some(self@)) == Some(s@),
                None => str_of(Some(self@)) is None,
            },
    {
        match self {
            JsonValue::Str(s) => Some(s.as_str()),
            _ => None,
        }
    }

    pub fn as_u64(&self) -> (r: Option<u64>)
        ensures
            r == u64_of(Some(self@)),
    {
        match self {
            JsonValue::Number(n) => n.as_u64,
            _ => None,
        }
    }

    pub fn as_bool(&self) -> (r: Option<bool>)
        ensures
            r == bool_of(Some(self@)),
    {
        match self {
            JsonValue::Bool(b) => Some(*b),
            _ => None,
        }
    }
}

// ── Niri focus events ───────────────────────────────────────────────────

/// The pid of the first window in the list that is focused and carries a
/// non-zero pid that fits in 32 bits.
pub open spec fn first_focused_pid(ws: Seq<JsonV>) -> Option<u32>
    decreases ws.len(),
{
    if ws.len() == 0 {
        None
    } else {
        let w = ws[0];
        let focused = match bool_of(get_spec(w, "is_focused"@)) {
            Some(b) => b,
            None => false,
        };
        if focused && (u64_of(get_spec(w, "pid"@)) matches Some(p) && p != 0 && p <= u32::MAX) {
            Some(u64_of(get_spec(w, "pid"@))->0 as u32)
        } else {
            first_focused_pid(ws.drop_first())
        }
    }
}

/// A window entry that is marked focused and carries a pid that is not 0
/// and fits in 32 bits.
pub open spec fn usable_focused_window(w: JsonV) -> bool {
    &&& get_spec(w, "is_focused"@) == Some(JsonV::Bool(true))
    &&& get_spec(w, "pid"@) matches Some(JsonV::Number(Some(p), _)) && 0 < p <= u32::MAX
}

/// The pid a window entry carries.
pub open spec fn window_pid_value(w: JsonV) -> int {
    match get_spec(w, "pid"@) {
        Some(JsonV::Number(Some(p), _)) => p as int,
        _ => 0,
    }
}

/// The pid read from a windows list is that of the first usable focused
/// window, whatever unfocused (or pid-less) windows come before it; with no
/// usable focused window there is none.
pub proof fn lemma_first_focused_window_wins(ws: Seq<JsonV>)
    ensures
        forall|k: int|
            0 <= k < ws.len() && usable_focused_window(#[trigger] ws[k]) && (forall|j: int|
                0 <= j < k ==> !usable_focused_window(#[trigger] ws[j])) ==> first_focused_pid(ws) == Some(
                window_pid_value(ws[k]) as u32,
            ),
        (forall|j: int| 0 <= j < ws.len() ==> !usable_focused_window(#[trigger] ws[j])) ==> first_focused_pid(ws)
            is None,
        first_focused_pid(ws) matches Some(p) ==> p != 0,
    decreases ws.len(),
{
    if ws.len() > 0 {
        let rest = ws.drop_first();
        lemma_first_focused_window_wins(rest);
        assert forall|k: int|
            0 <= k < ws.len() && usable_focused_window(#[trigger] ws[k]) && (forall|j: int|
                0 <= j < k ==> !usable_focused_window(#[trigger] ws[j])) implies first_focused_pid(ws) == Some(
            window_pid_value(ws[k]) as u32,
        ) by {
            if k > 0 {
                assert(!usable_focused_window(ws[0]));
                assert(rest[k - 1] == ws[k]);
                assert forall|j: int| 0 <= j < k - 1 implies !usable_focused_window(#[trigger] rest[j]) by {
                    assert(rest[j] == ws[j + 1]);
                }
            }
        }
        if forall|j: int| 0 <= j < ws.len() ==> !usable_focused_window(#[trigger] ws[j]) {
            assert(!usable_focused_window(ws[0]));
            assert forall|j: int| 0 <= j < rest.len() implies !usable_focused_window(#[trigger] rest[j]) by {
                assert(rest[j] == ws[j + 1]);
            }
        }
    }
}

/// The focused pid a Niri event carries: only a `WindowsChanged` event
/// whose `windows` list has a focused window with a usable pid has one.
pub open spec fn event_focused_pid(v: JsonV) -> Option<u32> {
    match get_spec(v, "WindowsChanged"@) {
        Some(JsonV::Object(wc)) => match get_spec(JsonV::Object(wc), "windows"@) {
            Some(JsonV::Array(ws)) => first_focused_pid(ws),
            _ => None,
        },
        _ => None,
    }
}

/// The focused pid carried by one parsed Niri event-stream line.
pub fn event_pid_of(v: &JsonValue) -> (r: Option<u32>)
    ensures
        r == event_focused_pid(v@),
{
    let wc = match v.get("WindowsChanged") {
        Some(x) => x,
        None => {
            return None;
        },
    };
    match wc {
        JsonValue::Object(_) => {},
        _ => {
            return None;
        },
    }
    let list = match wc.get("windows") {
        Some(x) => x,
        None => {
            return None;
        },
    };
    let windows = match list {
        JsonValue::Array(ws) => ws,
        _ => {
            return None;
        },
    };
    let ghost arr = match list@ {
        JsonV::Array(a) => a,
        _ => Seq::empty(),
    };
    proof {
        assert(arr.len() == windows@.len());
        assert(forall|k: int| 0 <= k < windows@.len() ==> #[trigger] arr[k] == windows@[k]@);
        assert(arr.skip(0) =~= arr);
    }
    let mut i: usize = 0;
    while i < windows.len()
        invariant
            i <= windows@.len(),
            arr.len() == windows@.len(),
            forall|k: int| 0 <= k < windows@.len() ==> #[trigger] arr[k] == windows@[k]@,
            event_focused_pid(v@) == first_focused_pid(arr.skip(i as int)),
        decreases windows@.len() - i,
    {
        let w = &windows[i];
        proof {
            assert(arr.skip(i as int)[0] == w@);
            assert(arr.skip(i as int).drop_first() =~= arr.skip(i + 1));
        }
        let focused = match w.get("is_focused") {
            Some(b) => match b.as_bool() {
                Some(x) => x,
                None => false,
            },
            None => false,
        };
        if focused {
            match w.get("pid") {
                Some(p) => match p.as_u64() {
                    Some(pid) => {
                        if pid != 0 && pid <= 0xFFFF_FFFF {
                            return Some(pid as u32);
                        }
                    },
                    None => {},
                },
                None => {},
            }
        }
        i += 1;
    }
    None
}

/// The focused pid a Niri event-stream line carries; `None` for a line
/// that is not JSON, an unrelated event, or one without a focused window.
pub fn parse_niri_event_focused_pid(line: &str) -> (r: Option<u32>)
    ensures
        r == match json_text(line@) {
            Some(v) => event_focused_pid(v),
            None => None,
        },
{
    match parse_json(line) {
        Some(v) => event_pid_of(&v),
        None => None,
    }
}

// ── Niri focused-window queries ─────────────────────────────────────────

/// The pid of a focused-window answer: its non-zero `pid`, cut to 32 bits.
pub open spec fn window_pid(v: JsonV) -> Option<u32> {
    match u64_of(get_spec(v, "pid"@)) {
        Some(p) => if p != 0 {
            Some(p as u32)
        } else {
            None
        },
        None => None,
    }
}

pub fn focused_window_pid(v: &JsonValue) -> (r: Option<u32>)
    ensures
        r == window_pid(v@),
{
    match v.get("pid") {
        Some(p) => match p.as_u64() {
            Some(pid) => {
                if pid != 0 {
                    Some(pid as u32)
                } else {
                    None
                }
            },
            None => None,
        },
        None => None,
    }
}

/// The focused pid in the output of `niri msg -j focused-window`.
pub fn parse_niri_focused_window(stdout: &[u8]) -> (r: Option<u32>)
    ensures
        r == match json_bytes(stdout@) {
            Some(v) => window_pid(v),
            None => None,
        },
{
    match parse_json_bytes(stdout) {
        Some(v) => focused_window_pid(&v),
        None => None,
    }
}

/// The focused window as Niri reports it: pid, title and app id.
#[derive(Debug, PartialEq, Eq)]
pub struct NiriFocusSnapshot {
    pub pid: u32,
    pub title: Option<String>,
    pub app_id: Option<String>,
}

pub open spec fn opt_view(o: Option<String>) -> Option<Seq<char>> {
    match o {
        Some(s) => Some(s@),
        None => None,
    }
}

fn member_string(v: &JsonValue, key: &str) -> (r: Option<String>)
    ensures
        opt_view(r) == str_of(get_spec(v@, key@)),
{
    match v.get(key) {
        Some(x) => match x.as_str() {
            Some(s) => Some(owned(s)),
            None => None,
        },
        None => None,
    }
}

/// The focused window's pid, title and app id in the output of
/// `niri msg -j focused-window`; `None` without a usable pid.
pub fn parse_niri_focused_identity(stdout: &[u8]) -> (r: Option<NiriFocusSnapshot>)
    ensures
        match json_bytes(stdout@) {
            Some(v) => match window_pid(v) {
                Some(pid) => r matches Some(s) && s.pid == pid && opt_view(s.title) == str_of(
                    get_spec(v, "title"@),
                ) && opt_view(s.app_id) == str_of(get_spec(v, "app_id"@)),
                None => r is None,
            },
            None => r is None,
        },
{
    let v = match parse_json_bytes(stdout) {
        Some(v) => v,
        None => {
            return None;
        },
    };
    let pid = match focused_window_pid(&v) {
        Some(p) => p,
        None => {
            return None;
        },
    };
    Some(NiriFocusSnapshot { pid, title: member_string(&v, "title"), app_id: member_string(&v, "app_id") })
}

// ── Asking the compositor at most twice a second ───────────────────────

/// How long a focused-window identity is answered from the cache.
pub const IDENTITY_TTL_MS: u64 = 500;

/// A snapshot as plain values: pid, title, app id.
pub open spec fn snap_view(s: NiriFocusSnapshot) -> (u32, Option<Seq<char>>, Option<Seq<char>>) {
    (s.pid, opt_view(s.title), opt_view(s.app_id))
}

pub open spec fn snap_opt_view(s: Option<NiriFocusSnapshot>) -> Option<(u32, Option<Seq<char>>, Option<Seq<char>>)> {
    match s {
        Some(x) => Some(snap_view(x)),
        None => None,
    }
}

fn copy_opt_string(o: &Option<String>) -> (r: Option<String>)
    ensures
        opt_view(r) == opt_view(*o),
{
    match o {
        Some(x) => Some(x.clone()),
        None => None,
    }
}

fn copy_snapshot(s: &NiriFocusSnapshot) -> (r: NiriFocusSnapshot)
    ensures
        snap_view(r) == snap_view(*s),
{
    NiriFocusSnapshot { pid: s.pid, title: copy_opt_string(&s.title), app_id: copy_opt_string(&s.app_id) }
}

/// The last identity the compositor reported successfully, with the time
/// (in milliseconds) it was taken.
pub struct IdentityThrottle {
    pub cached: Option<(u64, NiriFocusSnapshot)>,
}

impl IdentityThrottle {
    pub fn new() -> (r: IdentityThrottle)
        ensures
            r.cached is None,
    {
        IdentityThrottle { cached: None }
    }

    /// The cached identity answers at `now_ms`: there is one, taken less
    /// than `IDENTITY_TTL_MS` ago. Otherwise the compositor is asked.
    pub fn cached_answer(&self, now_ms: u64) -> (r: Option<NiriFocusSnapshot>)
        ensures
            match self.cached {
                Some((at, snap)) => if at <= now_ms && now_ms - at < IDENTITY_TTL_MS {
                    snap_opt_view(r) == Some(snap_view(snap))
                } else {
                    r is None
                },
                None => r is None,
            },
    {
        match &self.cached {
            Some((at, snap)) => {
                if *at <= now_ms && now_ms - *at < IDENTITY_TTL_MS {
                    Some(copy_snapshot(snap))
                } else {
                    None
                }
            },
            None => None,
        }
    }

    /// Take the compositor's answer at `now_ms`. A success is cached and
    /// returned; on a failure the cache is kept as it was and the last good
    /// identity, however old, is returned, so a transient hiccup does not
    /// stop the macros mid-game.
    pub fn take_answer(&mut self, now_ms: u64, fresh: Option<NiriFocusSnapshot>) -> (r: Option<NiriFocusSnapshot>)
        ensures
            match fresh {
                Some(f) => final(self).cached matches Some((at, c)) && at == now_ms && snap_view(c) == snap_view(f)
                    && snap_opt_view(r) == Some(snap_view(f)),
                None => final(self).cached == old(self).cached && snap_opt_view(r) == match old(self).cached {
                    Some((_, c)) => Some(snap_view(c)),
                    None => None,
                },
            },
    {
        match fresh {
            Some(f) => {
                self.cached = Some((now_ms, copy_snapshot(&f)));
                Some(f)
            },
            None => match &self.cached {
                Some((_, c)) => Some(copy_snapshot(c)),
                None => None,
            },
        }
    }
}

// ── Desktop palettes ────────────────────────────────────────────────────

/// The five colours the window theme takes from the desktop.
#[derive(Debug, Clone, PartialEq, Eq)]
pub struct DmsPalette {
    pub window: String,
    pub window_text: String,
    pub highlight: String,
    pub highlighted_text: String,
    pub mid: String,
}

pub struct PaletteV {
    pub window: Seq<char>,
    pub window_text: Seq<char>,
    pub highlight: Seq<char>,
    pub highlighted_text: Seq<char>,
    pub mid: Seq<char>,
}

impl View for DmsPalette {
    type V = PaletteV;

    open spec fn view(&self) -> PaletteV {
        PaletteV {
            window: self.window@,
            window_text: self.window_text@,
            highlight: self.highlight@,
            highlighted_text: self.highlighted_text@,
            mid: self.mid@,
        }
    }
}

/// Five string members of an object, when all are strings.
pub open spec fn palette_from(
    p: JsonV,
    window: Seq<char>,
    text: Seq<char>,
    high: Seq<char>,
    high_text: Seq<char>,
    mid: Seq<char>,
) -> Option<PaletteV> {
    match (
        str_of(get_spec(p, window)),
        str_of(get_spec(p, text)),
        str_of(get_spec(p, high)),
        str_of(get_spec(p, high_text)),
        str_of(get_spec(p, mid)),
    ) {
        (Some(a), Some(b), Some(c), Some(d), Some(e)) => Some(
            PaletteV { window: a, window_text: b, highlight: c, highlighted_text: d, mid: e },
        ),
        _ => None,
    }
}

/// A DMS colour cache: `colors.dark` or `colors.light`, and there
/// `background`, `on_background`, `primary`, `on_primary` and `outline`.
pub open spec fn dms_palette(v: JsonV, dark: bool) -> Option<PaletteV> {
    let mode = if dark {
        "dark"@
    } else {
        "light"@
    };
    match get_spec(v, "colors"@) {
        Some(c) => match get_spec(c, mode) {
            Some(p) => palette_from(p, "background"@, "on_background"@, "primary"@, "on_primary"@, "outline"@),
            None => None,
        },
        None => None,
    }
}

/// A desktop shell's flat palette: `surface_container`, `on_surface`,
/// `primary`, `on_primary` and `outline`.
pub open spec fn shell_palette(v: JsonV) -> Option<PaletteV> {
    palette_from(v, "surface_container"@, "on_surface"@, "primary"@, "on_primary"@, "outline"@)
}

pub open spec fn palette_opt_view(p: Option<DmsPalette>) -> Option<PaletteV> {
    match p {
        Some(x) => Some(x@),
        None => None,
    }
}

fn palette_of(
    p: &JsonValue,
    window: &str,
    text: &str,
    high: &str,
    high_text: &str,
    mid: &str,
) -> (r: Option<DmsPalette>)
    ensures
        palette_opt_view(r) == palette_from(p@, window@, text@, high@, high_text@, mid@),
{
    let a = match member_string(p, window) {
        Some(x) => x,
        None => {
            return None;
        },
    };
    let b = match member_string(p, text) {
        Some(x) => x,
        None => {
            return None;
        },
    };
    let c = match member_string(p, high) {
        Some(x) => x,
        None => {
            return None;
        },
    };
    let d = match member_string(p, high_text) {
        Some(x) => x,
        None => {
            return None;
        },
    };
    let e = match member_string(p, mid) {
        Some(x) => x,
        None => {
            return None;
        },
    };
    Some(DmsPalette { window: a, window_text: b, highlight: c, highlighted_text: d, mid: e })
}

impl DmsPalette {
    /// Read a DMS colour cache for the dark or light mode.
    pub fn from_json(source: &str, dark: bool) -> (r: Option<DmsPalette>)
        ensures
            palette_opt_view(r) == match json_text(source@) {
                Some(v) => dms_palette(v, dark),
                None => None,
            },
    {
        let mode = if dark {
            "dark"
        } else {
            "light"
        };
        let colors = match parse_json(source) {
            Some(v) => v,
            None => {
                return None;
            },
        };
        let c = match colors.get("colors") {
            Some(c) => c,
            None => {
                return None;
            },
        };
        let p = match c.get(mode) {
            Some(p) => p,
            None => {
                return None;
            },
        };
        palette_of(p, "background", "on_background", "primary", "on_primary", "outline")
    }

    /// Read a desktop shell's flat palette.
    pub fn from_shell_json(source: &str) -> (r: Option<DmsPalette>)
        ensures
            palette_opt_view(r) == match json_text(source@) {
                Some(v) => shell_palette(v),
                None => None,
            },
    {
        match parse_json(source) {
            Some(v) => palette_of(&v, "surface_container", "on_surface", "primary", "on_primary", "outline"),
            None => None,
        }
    }

    /// The application style sheet: the window surfaces in the palette's
    /// window colours, and the accent hooks (suggested actions, checked
    /// switches, scale and progress fills, selections) in its highlight
    /// colours; everything else is left to the desktop theme.
    pub fn app_css(&self) -> (css: String)
        ensures
            css@ == app_css_spec(self@),
    {
        let mut s = String::new();
        s.append("\n.macrotool-window,\n.macrotool-window.background,\n.macrotool-window paned,\n.macrotool-window scrolledwindow,\n.macrotool-window viewport,\n.macrotool-window notebook > stack {\n    background-color: ");
        s.append(self.window.as_str());
        s.append(";\n    color: ");
        s.append(self.window_text.as_str());
        s.append(";\n}\n.macrotool-window headerbar,\n.macrotool-window tabbox {\n    background-color: ");
        s.append(self.window.as_str());
        s.append(";\n    color: ");
        s.append(self.window_text.as_str());
        s.append(";\n}\n.macrotool-window button.suggested-action,\n.macrotool-window switch:checked,\n.macrotool-window scale highlight,\n.macrotool-window progressbar progress {\n    color: ");
        s.append(self.highlighted_text.as_str());
        s.append(";\n    background-color: ");
        s.append(self.highlight.as_str());
        s.append(";\n}\n.macrotool-window selection,\n.macrotool-window row:selected {\n    color: ");
        s.append(self.highlighted_text.as_str());
        s.append(";\n    background-color: ");
        s.append(self.highlight.as_str());
        s.append(";\n}\n");
        s
    }
}

pub open spec fn app_css_spec(p: PaletteV) -> Seq<char> {
    "\n.macrotool-window,\n.macrotool-window.background,\n.macrotool-window paned,\n.macrotool-window scrolledwindow,\n.macrotool-window viewport,\n.macrotool-window notebook > stack {\n    background-color: "@ + p.window + ";\n    color: "@ + p.window_text + ";\n}\n.macrotool-window headerbar,\n.macrotool-window tabbox {\n    background-color: "@ + p.window + ";\n    color: "@ + p.window_text
        + ";\n}\n.macrotool-window button.suggested-action,\n.macrotool-window switch:checked,\n.macrotool-window scale highlight,\n.macrotool-window progressbar progress {\n    color: "@ + p.highlighted_text + ";\n    background-color: "@ + p.highlight + ";\n}\n.macrotool-window selection,\n.macrotool-window row:selected {\n    color: "@ + p.highlighted_text + ";\n    background-color: "@
        + p.highlight + ";\n}\n"@
}


/// An event-stream line worth a detector tick: not blank, and about a
/// window's focus, the window list, or a window opening or closing.
pub open spec fn window_event_line_spec(line: Seq<char>) -> bool {
    let t = crate::text::trim_spec(line);
    t.len() > 0 && (crate::text::contains_spec(t, "Window focus"@) || crate::text::contains_spec(
        t,
        "Windows changed"@,
    ) || crate::text::contains_spec(t, "Window opened"@) || crate::text::contains_spec(t, "Window closed"@))
}

pub fn is_window_event_line(line: &str) -> (r: bool)
    ensures
        r == window_event_line_spec(line@),
{
    let t = crate::text::trim(line);
    if t.as_str().is_empty() {
        return false;
    }
    let tc = crate::text::chars_of(t.as_str());
    let a = crate::text::chars_of("Window focus");
    let b = crate::text::chars_of("Windows changed");
    let c = crate::text::chars_of("Window opened");
    let d = crate::text::chars_of("Window closed");
    crate::text::contains(tc.as_slice(), a.as_slice()) || crate::text::contains(tc.as_slice(), b.as_slice())
        || crate::text::contains(tc.as_slice(), c.as_slice()) || crate::text::contains(tc.as_slice(), d.as_slice())
}

} // verus!
