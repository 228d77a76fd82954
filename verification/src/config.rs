//! The configuration data model: games, their classes and specs, and the
//! macros, pixel triggers and buff timers each spec holds.
//!
//! Every type has a mathematical view (the same shape, with strings seen as
//! character sequences and name-keyed maps as sorted entry lists).

use vstd::prelude::*;
use crate::namemap::{NameMap, lookup, entries_view};
use crate::text::{owned, str_eq, chars_of, char_range, parse_i32_chars, parse_i32_spec, push_int, int_text};
use crate::document::first_index;

verus! {

// ── Data types ──────────────────────────────────────────────────────────

/// A screen resolution a set of pixel coordinates was captured at.
#[derive(Clone, Copy, Debug, PartialEq, Eq, Structural)]
pub struct Resolution {
    pub w: i32,
    pub h: i32,
}

#[derive(Clone, Debug, PartialEq)]
pub struct Macro {
    pub name: String,
    pub hotkey: String,
    pub delay: i32,
    pub mode: String,
    pub hold_mode: bool,
    pub keys: Vec<String>,
    pub inter_key_delay: i32,
    pub enabled: bool,
    pub max_hold_duration: i32,
    pub background: bool,
}

#[derive(Clone, Debug, PartialEq)]
pub struct Pixel {
    pub x: i32,
    pub y: i32,
    pub color: String,
    pub variation: i32,
}

#[derive(Clone, Debug, PartialEq)]
pub struct Anchor {
    pub pixels: Vec<Pixel>,
    pub match_mode: String,
}

#[derive(Clone, Debug, PartialEq)]
pub struct PixelTrigger {
    pub name: String,
    pub action_key: String,
    pub pixels: Vec<Pixel>,
    pub match_mode: String,
    pub inverse: bool,
    pub enabled: bool,
    pub cooldown: i32,
    pub last_fired: i64,
    pub trigger_mode: String,
    pub macro_hotkey: String,
    pub capture_res: Option<Resolution>,
    pub anchor: Option<Anchor>,
    pub blocker: Option<Anchor>,
}

#[derive(Clone, Debug, PartialEq)]
pub struct BuffTimer {
    pub name: String,
    pub watch_keys: Vec<String>,
    pub duration: i32,
    pub action_key: String,
    pub on_refresh: String,
    pub extend_ms: i32,
    pub enabled: bool,
    pub sound_on_expiry: bool,
    pub trigger_type: String,
    pub trigger_pixels: Vec<Pixel>,
    pub trigger_match_mode: String,
    pub capture_res: Option<Resolution>,
}

#[derive(Clone, Debug, PartialEq)]
pub struct Detect {
    pub pixels: Vec<Pixel>,
    pub match_mode: String,
    pub capture_res: Option<Resolution>,
}

#[derive(Clone, Debug, PartialEq)]
pub struct Spec {
    pub macros: Vec<Macro>,
    pub pixel_triggers: Vec<PixelTrigger>,
    pub buff_timers: Vec<BuffTimer>,
    pub detect: Option<Detect>,
}

#[derive(Clone, Debug, PartialEq)]
pub struct Class {
    pub specs: NameMap<Spec>,
    pub icon: String,
}

#[derive(Clone, Debug, PartialEq)]
pub struct Game {
    pub path: String,
    pub classes: NameMap<Class>,
}

#[derive(Clone, Debug, PartialEq)]
pub struct Settings {
    pub default_delay: i32,
    pub auto_detect_game: bool,
    pub only_in_game: bool,
    pub allow_background: bool,
    pub minimize_to_tray: bool,
    pub dark_mode: bool,
    pub toggle_key: String,
    pub pixel_check_rate: i32,
    pub show_terminal: bool,
    pub overlay_position: String,
}

/// The complete config tree, as loaded from config.kdl.
#[derive(Clone, Debug, PartialEq)]
pub struct ConfigTree {
    pub settings: Settings,
    pub games: NameMap<Game>,
    pub active_game: String,
    pub active_class: String,
    pub active_spec: String,
}

// ── Views ───────────────────────────────────────────────────────────────

pub struct MacroV {
    pub name: Seq<char>,
    pub hotkey: Seq<char>,
    pub delay: i32,
    pub mode: Seq<char>,
    pub hold_mode: bool,
    pub keys: Seq<Seq<char>>,
    pub inter_key_delay: i32,
    pub enabled: bool,
    pub max_hold_duration: i32,
    pub background: bool,
}

pub struct PixelV {
    pub x: i32,
    pub y: i32,
    pub color: Seq<char>,
    pub variation: i32,
}

pub struct AnchorV {
    pub pixels: Seq<PixelV>,
    pub match_mode: Seq<char>,
}

pub struct PixelTriggerV {
    pub name: Seq<char>,
    pub action_key: Seq<char>,
    pub pixels: Seq<PixelV>,
    pub match_mode: Seq<char>,
    pub inverse: bool,
    pub enabled: bool,
    pub cooldown: i32,
    pub last_fired: i64,
    pub trigger_mode: Seq<char>,
    pub macro_hotkey: Seq<char>,
    pub capture_res: Option<Resolution>,
    pub anchor: Option<AnchorV>,
    pub blocker: Option<AnchorV>,
}

pub struct BuffTimerV {
    pub name: Seq<char>,
    pub watch_keys: Seq<Seq<char>>,
    pub duration: i32,
    pub action_key: Seq<char>,
    pub on_refresh: Seq<char>,
    pub extend_ms: i32,
    pub enabled: bool,
    pub sound_on_expiry: bool,
    pub trigger_type: Seq<char>,
    pub trigger_pixels: Seq<PixelV>,
    pub trigger_match_mode: Seq<char>,
    pub capture_res: Option<Resolution>,
}

pub struct DetectV {
    pub pixels: Seq<PixelV>,
    pub match_mode: Seq<char>,
    pub capture_res: Option<Resolution>,
}

pub struct SpecV {
    pub macros: Seq<MacroV>,
    pub pixel_triggers: Seq<PixelTriggerV>,
    pub buff_timers: Seq<BuffTimerV>,
    pub detect: Option<DetectV>,
}

pub struct ClassV {
    pub specs: Seq<(Seq<char>, SpecV)>,
    pub icon: Seq<char>,
}

pub struct GameV {
    pub path: Seq<char>,
    pub classes: Seq<(Seq<char>, ClassV)>,
}

pub struct SettingsV {
    pub default_delay: i32,
    pub auto_detect_game: bool,
    pub only_in_game: bool,
    pub allow_background: bool,
    pub minimize_to_tray: bool,
    pub dark_mode: bool,
    pub toggle_key: Seq<char>,
    pub pixel_check_rate: i32,
    pub show_terminal: bool,
    pub overlay_position: Seq<char>,
}

pub struct ConfigTreeV {
    pub settings: SettingsV,
    pub games: Seq<(Seq<char>, GameV)>,
    pub active_game: Seq<char>,
    pub active_class: Seq<char>,
    pub active_spec: Seq<char>,
}

/// The views of a list of strings.
pub open spec fn strings_view(v: Seq<String>) -> Seq<Seq<char>> {
    v.map_values(|s: String| s@)
}

impl View for Macro {
    type V = MacroV;

    open spec fn view(&self) -> MacroV {
        MacroV {
            name: self.name@,
            hotkey: self.hotkey@,
            delay: self.delay,
            mode: self.mode@,
            hold_mode: self.hold_mode,
            keys: strings_view(self.keys@),
            inter_key_delay: self.inter_key_delay,
            enabled: self.enabled,
            max_hold_duration: self.max_hold_duration,
            background: self.background,
        }
    }
}

impl View for Pixel {
    type V = PixelV;

    open spec fn view(&self) -> PixelV {
        PixelV { x: self.x, y: self.y, color: self.color@, variation: self.variation }
    }
}

pub open spec fn pixels_view(v: Seq<Pixel>) -> Seq<PixelV> {
    v.map_values(|p: Pixel| p@)
}

impl View for Anchor {
    type V = AnchorV;

    open spec fn view(&self) -> AnchorV {
        AnchorV { pixels: pixels_view(self.pixels@), match_mode: self.match_mode@ }
    }
}

pub open spec fn anchor_opt_view(a: Option<Anchor>) -> Option<AnchorV> {
    match a {
        Some(x) => Some(x@),
        None => None,
    }
}

impl View for PixelTrigger {
    type V = PixelTriggerV;

    open spec fn view(&self) -> PixelTriggerV {
        PixelTriggerV {
            name: self.name@,
            action_key: self.action_key@,
            pixels: pixels_view(self.pixels@),
            match_mode: self.match_mode@,
            inverse: self.inverse,
            enabled: self.enabled,
            cooldown: self.cooldown,
            last_fired: self.last_fired,
            trigger_mode: self.trigger_mode@,
            macro_hotkey: self.macro_hotkey@,
            capture_res: self.capture_res,
            anchor: anchor_opt_view(self.anchor),
            blocker: anchor_opt_view(self.blocker),
        }
    }
}

impl View for BuffTimer {
    type V = BuffTimerV;

    open spec fn view(&self) -> BuffTimerV {
        BuffTimerV {
            name: self.name@,
            watch_keys: strings_view(self.watch_keys@),
            duration: self.duration,
            action_key: self.action_key@,
            on_refresh: self.on_refresh@,
            extend_ms: self.extend_ms,
            enabled: self.enabled,
            sound_on_expiry: self.sound_on_expiry,
            trigger_type: self.trigger_type@,
            trigger_pixels: pixels_view(self.trigger_pixels@),
            trigger_match_mode: self.trigger_match_mode@,
            capture_res: self.capture_res,
        }
    }
}

impl View for Detect {
    type V = DetectV;

    open spec fn view(&self) -> DetectV {
        DetectV {
            pixels: pixels_view(self.pixels@),
            match_mode: self.match_mode@,
            capture_res: self.capture_res,
        }
    }
}

pub open spec fn macros_view(v: Seq<Macro>) -> Seq<MacroV> {
    v.map_values(|m: Macro| m@)
}

pub open spec fn triggers_view(v: Seq<PixelTrigger>) -> Seq<PixelTriggerV> {
    v.map_values(|t: PixelTrigger| t@)
}

pub open spec fn buffs_view(v: Seq<BuffTimer>) -> Seq<BuffTimerV> {
    v.map_values(|b: BuffTimer| b@)
}

impl View for Spec {
    type V = SpecV;

    open spec fn view(&self) -> SpecV {
        SpecV {
            macros: macros_view(self.macros@),
            pixel_triggers: triggers_view(self.pixel_triggers@),
            buff_timers: buffs_view(self.buff_timers@),
            detect: match self.detect {
                Some(d) => Some(d@),
                None => None,
            },
        }
    }
}

impl View for Class {
    type V = ClassV;

    open spec fn view(&self) -> ClassV {
        ClassV { specs: self.specs@, icon: self.icon@ }
    }
}

impl View for Game {
    type V = GameV;

    open spec fn view(&self) -> GameV {
        GameV { path: self.path@, classes: self.classes@ }
    }
}

impl View for Settings {
    type V = SettingsV;

    open spec fn view(&self) -> SettingsV {
        SettingsV {
            default_delay: self.default_delay,
            auto_detect_game: self.auto_detect_game,
            only_in_game: self.only_in_game,
            allow_background: self.allow_background,
            minimize_to_tray: self.minimize_to_tray,
            dark_mode: self.dark_mode,
            toggle_key: self.toggle_key@,
            pixel_check_rate: self.pixel_check_rate,
            show_terminal: self.show_terminal,
            overlay_position: self.overlay_position@,
        }
    }
}

impl View for ConfigTree {
    type V = ConfigTreeV;

    open spec fn view(&self) -> ConfigTreeV {
        ConfigTreeV {
            settings: self.settings@,
            games: self.games@,
            active_game: self.active_game@,
            active_class: self.active_class@,
            active_spec: self.active_spec@,
        }
    }
}

// ── Defaults ────────────────────────────────────────────────────────────

pub fn default_10() -> (r: i32)
    ensures
        r == 10,
{
    10
}

pub fn default_all() -> (r: String)
    ensures
        r@ == "all"@,
{
    owned("all")
}

pub fn default_1000() -> (r: i32)
    ensures
        r == 1000,
{
    1000
}

pub fn default_macro_mode() -> (r: String)
    ensures
        r@ == "macro"@,
{
    owned("macro")
}

pub fn default_5000() -> (r: i32)
    ensures
        r == 5000,
{
    5000
}

pub fn default_reset() -> (r: String)
    ensures
        r@ == "reset"@,
{
    owned("reset")
}

pub fn default_keys() -> (r: String)
    ensures
        r@ == "keys"@,
{
    owned("keys")
}

pub fn default_delay() -> (r: i32)
    ensures
        r == 50,
{
    50
}

pub fn default_true() -> (r: bool)
    ensures
        r,
{
    true
}

pub fn default_250() -> (r: i32)
    ensures
        r == 250,
{
    250
}

pub fn default_toggle_key() -> (r: String)
    ensures
        r@ == "ScrollLock"@,
{
    owned("ScrollLock")
}

pub fn default_overlay_position() -> (r: String)
    ensures
        r@ == "top-left"@,
{
    owned("top-left")
}

pub open spec fn default_macro_v() -> MacroV {
    MacroV {
        name: "Unnamed"@,
        hotkey: Seq::empty(),
        delay: 50,
        mode: "press"@,
        hold_mode: false,
        keys: Seq::empty(),
        inter_key_delay: 0,
        enabled: true,
        max_hold_duration: 0,
        background: false,
    }
}

pub open spec fn default_buff_v() -> BuffTimerV {
    BuffTimerV {
        name: "Unnamed"@,
        watch_keys: Seq::empty(),
        duration: 5000,
        action_key: Seq::empty(),
        on_refresh: "reset"@,
        extend_ms: 0,
        enabled: true,
        sound_on_expiry: false,
        trigger_type: "keys"@,
        trigger_pixels: Seq::empty(),
        trigger_match_mode: "all"@,
        capture_res: None,
    }
}

pub open spec fn default_settings_v() -> SettingsV {
    SettingsV {
        default_delay: 50,
        auto_detect_game: false,
        only_in_game: true,
        allow_background: false,
        minimize_to_tray: false,
        dark_mode: true,
        toggle_key: "ScrollLock"@,
        pixel_check_rate: 250,
        show_terminal: false,
        overlay_position: "top-left"@,
    }
}

pub open spec fn empty_spec_v() -> SpecV {
    SpecV { macros: Seq::empty(), pixel_triggers: Seq::empty(), buff_timers: Seq::empty(), detect: None }
}

pub open spec fn default_tree_v() -> ConfigTreeV {
    ConfigTreeV {
        settings: default_settings_v(),
        games: Seq::empty(),
        active_game: Seq::empty(),
        active_class: Seq::empty(),
        active_spec: Seq::empty(),
    }
}

impl Default for Resolution {
    fn default() -> (r: Resolution)
        ensures
            r == (Resolution { w: 0, h: 0 }),
    {
        Resolution { w: 0, h: 0 }
    }
}

impl Default for Macro {
    fn default() -> (r: Macro)
        ensures
            r@ == default_macro_v(),
    {
        let r = Macro {
            name: owned("Unnamed"),
            hotkey: String::new(),
            delay: 50,
            mode: owned("press"),
            hold_mode: false,
            keys: Vec::new(),
            inter_key_delay: 0,
            enabled: true,
            max_hold_duration: 0,
            background: false,
        };
        proof {
            assert(r@.keys =~= Seq::<Seq<char>>::empty());
        }
        r
    }
}

impl Default for Pixel {
    fn default() -> (r: Pixel)
        ensures
            r@ == (PixelV { x: 0, y: 0, color: Seq::empty(), variation: 0 }),
    {
        Pixel { x: 0, y: 0, color: String::new(), variation: 0 }
    }
}

impl Default for Anchor {
    fn default() -> (r: Anchor)
        ensures
            r@ == (AnchorV { pixels: Seq::empty(), match_mode: Seq::empty() }),
    {
        let r = Anchor { pixels: Vec::new(), match_mode: String::new() };
        proof {
            assert(r@.pixels =~= Seq::<PixelV>::empty());
        }
        r
    }
}

impl Default for PixelTrigger {
    fn default() -> (r: PixelTrigger)
        ensures
            r@ == (PixelTriggerV {
                name: Seq::empty(),
                action_key: Seq::empty(),
                pixels: Seq::empty(),
                match_mode: Seq::empty(),
                inverse: false,
                enabled: false,
                cooldown: 0,
                last_fired: 0,
                trigger_mode: Seq::empty(),
                macro_hotkey: Seq::empty(),
                capture_res: None,
                anchor: None,
                blocker: None,
            }),
    {
        let r = PixelTrigger {
            name: String::new(),
            action_key: String::new(),
            pixels: Vec::new(),
            match_mode: String::new(),
            inverse: false,
            enabled: false,
            cooldown: 0,
            last_fired: 0,
            trigger_mode: String::new(),
            macro_hotkey: String::new(),
            capture_res: None,
            anchor: None,
            blocker: None,
        };
        proof {
            assert(r@.pixels =~= Seq::<PixelV>::empty());
        }
        r
    }
}

impl Default for BuffTimer {
    fn default() -> (r: BuffTimer)
        ensures
            r@ == default_buff_v(),
    {
        let r = BuffTimer {
            name: owned("Unnamed"),
            watch_keys: Vec::new(),
            duration: 5000,
            action_key: String::new(),
            on_refresh: owned("reset"),
            extend_ms: 0,
            enabled: true,
            sound_on_expiry: false,
            trigger_type: owned("keys"),
            trigger_pixels: Vec::new(),
            trigger_match_mode: owned("all"),
            capture_res: None,
        };
        proof {
            assert(r@.watch_keys =~= Seq::<Seq<char>>::empty());
            assert(r@.trigger_pixels =~= Seq::<PixelV>::empty());
        }
        r
    }
}

impl Default for Detect {
    fn default() -> (r: Detect)
        ensures
            r@ == (DetectV { pixels: Seq::empty(), match_mode: Seq::empty(), capture_res: None }),
    {
        let r = Detect { pixels: Vec::new(), match_mode: String::new(), capture_res: None };
        proof {
            assert(r@.pixels =~= Seq::<PixelV>::empty());
        }
        r
    }
}

impl Default for Spec {
    fn default() -> (r: Spec)
        ensures
            r@ == empty_spec_v(),
    {
        let r = Spec { macros: Vec::new(), pixel_triggers: Vec::new(), buff_timers: Vec::new(), detect: None };
        proof {
            assert(r@.macros =~= Seq::<MacroV>::empty());
            assert(r@.pixel_triggers =~= Seq::<PixelTriggerV>::empty());
            assert(r@.buff_timers =~= Seq::<BuffTimerV>::empty());
        }
        r
    }
}

impl Default for Class {
    fn default() -> (r: Class)
        ensures
            r@ == (ClassV { specs: Seq::empty(), icon: Seq::empty() }),
    {
        Class { specs: NameMap::new(), icon: String::new() }
    }
}

impl Default for Game {
    fn default() -> (r: Game)
        ensures
            r@ == (GameV { path: Seq::empty(), classes: Seq::empty() }),
    {
        Game { path: String::new(), classes: NameMap::new() }
    }
}

impl Default for Settings {
    fn default() -> (r: Settings)
        ensures
            r@ == default_settings_v(),
    {
        Settings {
            default_delay: 50,
            auto_detect_game: false,
            only_in_game: true,
            allow_background: false,
            minimize_to_tray: false,
            dark_mode: true,
            toggle_key: owned("ScrollLock"),
            pixel_check_rate: 250,
            show_terminal: false,
            overlay_position: default_overlay_position(),
        }
    }
}

impl Default for ConfigTree {
    fn default() -> (r: ConfigTree)
        ensures
            r@ == default_tree_v(),
    {
        ConfigTree {
            settings: Settings::default(),
            games: NameMap::new(),
            active_game: String::new(),
            active_class: String::new(),
            active_spec: String::new(),
        }
    }
}

// ── Overlay position, resolutions, the active spec ──────────────────────

/// The overlay positions the configuration accepts.
pub open spec fn known_position(p: Seq<char>) -> bool {
    p == "top-left"@ || p == "top-right"@ || p == "bottom-left"@ || p == "bottom-right"@
        || p == "hidden"@
}

/// A known position as it is, anything else the default `top-left`.
pub open spec fn normalized_position(p: Seq<char>) -> Seq<char> {
    if known_position(p) {
        p
    } else {
        "top-left"@
    }
}

pub fn normalize_overlay_position(position: &str) -> (r: String)
    ensures
        r@ == normalized_position(position@),
{
    if str_eq(position, "top-left") || str_eq(position, "top-right") || str_eq(
        position,
        "bottom-left",
    ) || str_eq(position, "bottom-right") || str_eq(position, "hidden") {
        owned(position)
    } else {
        default_overlay_position()
    }
}

/// `WxH`, split at its only `x`, both sides decimal `i32`s.
pub open spec fn res_spec(s: Seq<char>) -> Option<Resolution> {
    match first_index(s, |c: char| c == 'x') {
        Some(i) => {
            let rest = s.subrange(i + 1, s.len() as int);
            if rest.contains('x') {
                None
            } else {
                match (parse_i32_spec(s.subrange(0, i)), parse_i32_spec(rest)) {
                    (Some(w), Some(h)) => Some(Resolution { w, h }),
                    _ => None,
                }
            }
        },
        None => None,
    }
}

/// A resolution written as `WxH` reads back as itself.
pub proof fn lemma_res_round_trip(r: Resolution)
    ensures
        res_spec(res_text(Some(r))) == Some(r),
{
    let a = int_text(r.w as int);
    let b = int_text(r.h as int);
    crate::text::lemma_int_text_round_trip(r.w);
    crate::text::lemma_int_text_round_trip(r.h);
    let s = res_text(Some(r));
    assert(s == a + seq!['x'] + b);
    let p = |c: char| c == 'x';
    assert forall|j: int| 0 <= j < a.len() implies !p(#[trigger] s[j]) by {
        assert(s[j] == a[j]);
    }
    assert(s[a.len() as int] == 'x');
    crate::document::lemma_first_index(s, p, a.len() as int);
    assert(s.subrange(0, a.len() as int) =~= a);
    assert(s.subrange(a.len() as int + 1, s.len() as int) =~= b);
    assert(!b.contains('x'));
}

/// No resolution is written as nothing, which reads back as none.
pub proof fn lemma_no_res_round_trip()
    ensures
        res_spec(res_text(None)) is None,
{
    crate::document::lemma_first_index(Seq::<char>::empty(), |c: char| c == 'x', 0);
}

/// Parse a `WxH` resolution string.
pub fn parse_res(val: &str) -> (r: Option<Resolution>)
    ensures
        r == res_spec(val@),
{
    let cs = chars_of(val);
    let ghost p = |c: char| c == 'x';
    let mut i: usize = 0;
    while i < cs.len() && cs[i] != 'x'
        invariant
            i <= cs.len(),
            cs@ == val@,
            p == (|c: char| c == 'x'),
            forall|j: int| 0 <= j < i ==> !p(#[trigger] cs@[j]),
        decreases cs.len() - i,
    {
        i += 1;
    }
    proof {
        crate::document::lemma_first_index(cs@, p, i as int);
    }
    if i == cs.len() {
        return None;
    }
    let mut j: usize = i + 1;
    while j < cs.len() && cs[j] != 'x'
        invariant
            i < j <= cs.len(),
            cs@ == val@,
            forall|k: int| i < k < j ==> cs@[k] != 'x',
        decreases cs.len() - j,
    {
        j += 1;
    }
    let ghost rest = cs@.subrange(i + 1, cs.len() as int);
    if j < cs.len() {
        proof {
            assert(rest[j - i - 1] == 'x');
        }
        return None;
    }
    proof {
        assert forall|k: int| 0 <= k < rest.len() implies rest[k] != 'x' by {
            assert(rest[k] == cs@[i + 1 + k]);
        }
    }
    let left = char_range(cs.as_slice(), 0, i);
    let right = char_range(cs.as_slice(), i + 1, cs.len());
    match (parse_i32_chars(left.as_slice()), parse_i32_chars(right.as_slice())) {
        (Some(w), Some(h)) => Some(Resolution { w, h }),
        _ => None,
    }
}

/// The text of an optional resolution: `WxH`, or empty.
pub open spec fn res_text(r: Option<Resolution>) -> Seq<char> {
    match r {
        Some(r) => int_text(r.w as int) + seq!['x'] + int_text(r.h as int),
        None => Seq::empty(),
    }
}

pub fn res_str(r: &Option<Resolution>) -> (s: String)
    ensures
        s@ == res_text(*r),
{
    match r {
        Some(r) => {
            let mut s = String::new();
            push_int(&mut s, r.w as i64);
            s.push('x');
            push_int(&mut s, r.h as i64);
            proof {
                assert(s@ =~= res_text(Some(*r)));
            }
            s
        },
        None => String::new(),
    }
}

/// The spec the active game, class and spec names select, if each exists.
pub open spec fn active_spec_of(t: ConfigTreeV) -> Option<SpecV> {
    match lookup(t.games, t.active_game) {
        Some(g) => match lookup(g.classes, t.active_class) {
            Some(c) => lookup(c.specs, t.active_spec),
            None => None,
        },
        None => None,
    }
}

pub fn get_spec(tree: &ConfigTree) -> (r: Option<&Spec>)
    ensures
        match r {
            Some(s) => active_spec_of(tree@) == Some(s@),
            None => active_spec_of(tree@) is None,
        },
{
    match tree.games.get(tree.active_game.as_str()) {
        Some(g) => match g.classes.get(tree.active_class.as_str()) {
            Some(c) => c.specs.get(tree.active_spec.as_str()),
            None => None,
        },
        None => None,
    }
}

// ── Validation ──────────────────────────────────────────────────────────

pub open spec fn validated_macro(m: MacroV, default_delay: i32) -> MacroV {
    MacroV {
        name: if m.name.len() == 0 {
            "Unnamed"@
        } else {
            m.name
        },
        delay: if m.delay == 0 {
            default_delay
        } else {
            m.delay
        },
        mode: if m.mode.len() == 0 {
            if m.hold_mode {
                "hold"@
            } else {
                "press"@
            }
        } else {
            m.mode
        },
        ..m
    }
}

/// The placeholder pixel a trigger without pixels is given.
pub open spec fn placeholder_pixel() -> PixelV {
    PixelV { x: 0, y: 0, color: "0x000000"@, variation: 10 }
}

pub open spec fn validated_trigger(p: PixelTriggerV) -> PixelTriggerV {
    PixelTriggerV {
        name: if p.name.len() == 0 {
            "Unnamed"@
        } else {
            p.name
        },
        cooldown: if p.cooldown == 0 {
            1000
        } else {
            p.cooldown
        },
        match_mode: if p.match_mode.len() == 0 {
            "all"@
        } else {
            p.match_mode
        },
        pixels: if p.pixels.len() == 0 {
            seq![placeholder_pixel()]
        } else {
            p.pixels
        },
        ..p
    }
}

pub open spec fn validated_buff(b: BuffTimerV) -> BuffTimerV {
    BuffTimerV {
        name: if b.name.len() == 0 {
            "Unnamed"@
        } else {
            b.name
        },
        duration: if b.duration == 0 {
            5000
        } else {
            b.duration
        },
        on_refresh: if b.on_refresh.len() == 0 {
            "reset"@
        } else {
            b.on_refresh
        },
        trigger_type: if b.trigger_type.len() == 0 {
            "keys"@
        } else {
            b.trigger_type
        },
        ..b
    }
}

pub open spec fn validated_spec(s: SpecV, default_delay: i32) -> SpecV {
    SpecV {
        macros: s.macros.map_values(|m: MacroV| validated_macro(m, default_delay)),
        pixel_triggers: s.pixel_triggers.map_values(|p: PixelTriggerV| validated_trigger(p)),
        buff_timers: s.buff_timers.map_values(|b: BuffTimerV| validated_buff(b)),
        detect: s.detect,
    }
}

pub open spec fn validated_class(c: ClassV, default_delay: i32) -> ClassV {
    ClassV {
        specs: c.specs.map_values(
            |e: (Seq<char>, SpecV)| (e.0, validated_spec(e.1, default_delay)),
        ),
        icon: c.icon,
    }
}

pub open spec fn validated_game(g: GameV, default_delay: i32) -> GameV {
    GameV {
        path: g.path,
        classes: g.classes.map_values(
            |e: (Seq<char>, ClassV)| (e.0, validated_class(e.1, default_delay)),
        ),
    }
}

/// The tree after `validate`: a known overlay position, and every macro,
/// trigger and buff given the defaults for its empty or zero fields.
pub open spec fn validated_tree(t: ConfigTreeV) -> ConfigTreeV {
    ConfigTreeV {
        settings: SettingsV {
            overlay_position: normalized_position(t.settings.overlay_position),
            ..t.settings
        },
        games: t.games.map_values(
            |e: (Seq<char>, GameV)| (e.0, validated_game(e.1, t.settings.default_delay)),
        ),
        ..t
    }
}

fn validate_macro(m: Macro, default_delay: i32) -> (r: Macro)
    ensures
        r@ == validated_macro(m@, default_delay),
{
    let mut m = m;
    if m.name.as_str().is_empty() {
        m.name = owned("Unnamed");
    }
    if m.delay == 0 {
        m.delay = default_delay;
    }
    if m.mode.as_str().is_empty() {
        m.mode = if m.hold_mode {
            owned("hold")
        } else {
            owned("press")
        };
    }
    m
}

fn validate_trigger(p: PixelTrigger) -> (r: PixelTrigger)
    ensures
        r@ == validated_trigger(p@),
{
    let mut p = p;
    if p.name.as_str().is_empty() {
        p.name = owned("Unnamed");
    }
    if p.cooldown == 0 {
        p.cooldown = 1000;
    }
    if p.match_mode.as_str().is_empty() {
        p.match_mode = owned("all");
    }
    if p.pixels.len() == 0 {
        p.pixels.push(Pixel { x: 0, y: 0, color: owned("0x000000"), variation: 10 });
        proof {
            assert(pixels_view(p.pixels@) =~= seq![placeholder_pixel()]);
        }
    }
    p
}

fn validate_buff(b: BuffTimer) -> (r: BuffTimer)
    ensures
        r@ == validated_buff(b@),
{
    let mut b = b;
    if b.name.as_str().is_empty() {
        b.name = owned("Unnamed");
    }
    if b.duration == 0 {
        b.duration = 5000;
    }
    if b.on_refresh.as_str().is_empty() {
        b.on_refresh = owned("reset");
    }
    if b.trigger_type.as_str().is_empty() {
        b.trigger_type = owned("keys");
    }
    b
}

fn validate_spec(s: Spec, default_delay: i32) -> (r: Spec)
    ensures
        r@ == validated_spec(s@, default_delay),
{
    let Spec { macros, pixel_triggers, buff_timers, detect } = s;
    let ghost m0 = macros@;
    let ghost p0 = pixel_triggers@;
    let ghost b0 = buff_timers@;
    let mut rest = macros;
    let mut ms: Vec<Macro> = Vec::new();
    while rest.len() > 0
        invariant
            ms@.len() + rest@.len() == m0.len(),
            rest@ == m0.subrange(ms@.len() as int, m0.len() as int),
            forall|k: int| 0 <= k < ms@.len() ==> #[trigger] ms@[k]@ == validated_macro(m0[k]@, default_delay),
        decreases rest.len(),
    {
        let m = rest.remove(0);
        ms.push(validate_macro(m, default_delay));
    }
    let mut rest = pixel_triggers;
    let mut ps: Vec<PixelTrigger> = Vec::new();
    while rest.len() > 0
        invariant
            ps@.len() + rest@.len() == p0.len(),
            rest@ == p0.subrange(ps@.len() as int, p0.len() as int),
            forall|k: int| 0 <= k < ps@.len() ==> #[trigger] ps@[k]@ == validated_trigger(p0[k]@),
        decreases rest.len(),
    {
        let p = rest.remove(0);
        ps.push(validate_trigger(p));
    }
    let mut rest = buff_timers;
    let mut bs: Vec<BuffTimer> = Vec::new();
    while rest.len() > 0
        invariant
            bs@.len() + rest@.len() == b0.len(),
            rest@ == b0.subrange(bs@.len() as int, b0.len() as int),
            forall|k: int| 0 <= k < bs@.len() ==> #[trigger] bs@[k]@ == validated_buff(b0[k]@),
        decreases rest.len(),
    {
        let b = rest.remove(0);
        bs.push(validate_buff(b));
    }
    let r = Spec { macros: ms, pixel_triggers: ps, buff_timers: bs, detect };
    proof {
        assert(r@.macros =~= s@.macros.map_values(|m: MacroV| validated_macro(m, default_delay)));
        assert(r@.pixel_triggers =~= s@.pixel_triggers.map_values(|p: PixelTriggerV| validated_trigger(p)));
        assert(r@.buff_timers =~= s@.buff_timers.map_values(|b: BuffTimerV| validated_buff(b)));
    }
    r
}

fn validate_class(c: &mut Class, default_delay: i32)
    ensures
        final(c)@ == validated_class(old(c)@, default_delay),
{
    let n = c.specs.len();
    let ghost c0 = c@;
    let mut i: usize = 0;
    while i < n
        invariant
            i <= n,
            n == c0.specs.len(),
            c@.icon == c0.icon,
            c@.specs.len() == n,
            forall|k: int| 0 <= k < i ==> #[trigger] c@.specs[k] == (c0.specs[k].0, validated_spec(c0.specs[k].1, default_delay)),
            forall|k: int| i <= k < n ==> #[trigger] c@.specs[k] == c0.specs[k],
        decreases n - i,
    {
        let s = c.specs.replace_value_at(i, Spec::default());
        let fixed = validate_spec(s, default_delay);
        c.specs.replace_value_at(i, fixed);
        i += 1;
    }
    proof {
        assert(c@.specs =~= c0.specs.map_values(
            |e: (Seq<char>, SpecV)| (e.0, validated_spec(e.1, default_delay)),
        ));
    }
}

fn validate_game(g: &mut Game, default_delay: i32)
    ensures
        final(g)@ == validated_game(old(g)@, default_delay),
{
    let n = g.classes.len();
    let ghost g0 = g@;
    let mut i: usize = 0;
    while i < n
        invariant
            i <= n,
            n == g0.classes.len(),
            g@.path == g0.path,
            g@.classes.len() == n,
            forall|k: int| 0 <= k < i ==> #[trigger] g@.classes[k] == (g0.classes[k].0, validated_class(g0.classes[k].1, default_delay)),
            forall|k: int| i <= k < n ==> #[trigger] g@.classes[k] == g0.classes[k],
        decreases n - i,
    {
        let mut c = g.classes.replace_value_at(i, Class::default());
        validate_class(&mut c, default_delay);
        g.classes.replace_value_at(i, c);
        i += 1;
    }
    proof {
        assert(g@.classes =~= g0.classes.map_values(
            |e: (Seq<char>, ClassV)| (e.0, validated_class(e.1, default_delay)),
        ));
    }
}

/// Normalise the overlay position and give every macro, trigger and buff
/// the defaults for its empty or zero fields.
pub fn validate(tree: &mut ConfigTree)
    ensures
        final(tree)@ == validated_tree(old(tree)@),
{
    tree.settings.overlay_position = normalize_overlay_position(tree.settings.overlay_position.as_str());
    let dd = tree.settings.default_delay;
    let n = tree.games.len();
    let ghost t0 = old(tree)@;
    let mut i: usize = 0;
    while i < n
        invariant
            i <= n,
            n == t0.games.len(),
            dd == t0.settings.default_delay,
            tree@.settings == (SettingsV { overlay_position: normalized_position(t0.settings.overlay_position), ..t0.settings }),
            tree@.active_game == t0.active_game,
            tree@.active_class == t0.active_class,
            tree@.active_spec == t0.active_spec,
            tree@.games.len() == n,
            forall|k: int| 0 <= k < i ==> #[trigger] tree@.games[k] == (t0.games[k].0, validated_game(t0.games[k].1, dd)),
            forall|k: int| i <= k < n ==> #[trigger] tree@.games[k] == t0.games[k],
        decreases n - i,
    {
        let mut g = tree.games.replace_value_at(i, Game::default());
        validate_game(&mut g, dd);
        tree.games.replace_value_at(i, g);
        i += 1;
    }
    proof {
        assert(tree@.games =~= t0.games.map_values(
            |e: (Seq<char>, GameV)| (e.0, validated_game(e.1, dd)),
        ));
    }
}

} // verus!
