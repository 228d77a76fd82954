//! Reading the configuration tree out of a parsed config.kdl document.
//!
//! Each reader is stated as a spec function of the node's view: which
//! properties it reads, with which defaults, and how child nodes fold into
//! lists and name-keyed maps.

use vstd::prelude::*;
use crate::config::{
    Anchor, BuffTimer, Class, ConfigTree, ConfigTreeV, Detect, Game, Macro, Pixel, PixelTrigger, Spec,
    AnchorV, BuffTimerV, ClassV, DetectV, GameV, MacroV, PixelV, PixelTriggerV, SettingsV, SpecV,
    anchor_opt_view, default_tree_v, empty_spec_v, normalize_overlay_position, normalized_position,
    parse_res, pixels_view, res_spec, strings_view, validate, validated_tree,
};
use crate::document::{
    Document, Node, NodeV, NodeValue, ValueV, as_str_spec, named_children, prop_bool_spec, prop_int_spec,
    prop_str_spec,
};
use crate::namemap::{NameMap, insert_spec};
use crate::text::{lowercase, owned, str_eq, to_lowercase};

verus! {

// ── Specifications ──────────────────────────────────────────────────────

/// The first argument of a node, when it is a string.
pub open spec fn first_arg_str(n: NodeV) -> Option<Seq<char>> {
    if n.args.len() > 0 {
        as_str_spec(n.args[0])
    } else {
        None
    }
}

/// The first argument as a name: the string, or empty when there is none.
pub open spec fn node_name_arg(n: NodeV) -> Seq<char> {
    match first_arg_str(n) {
        Some(s) => s,
        None => ""@,
    }
}

/// The lowercased string first arguments of the given nodes, in order
/// (nodes without one are skipped).
pub open spec fn lowered_first_args(ns: Seq<NodeV>) -> Seq<Seq<char>>
    decreases ns.len(),
{
    if ns.len() == 0 {
        Seq::empty()
    } else {
        let rest = lowered_first_args(ns.drop_last());
        match first_arg_str(ns.last()) {
            Some(s) => rest.push(lowercase(s)),
            None => rest,
        }
    }
}

pub open spec fn pixel_of_node(n: NodeV) -> PixelV {
    PixelV {
        x: prop_int_spec(n, "x"@, 0) as i32,
        y: prop_int_spec(n, "y"@, 0) as i32,
        color: prop_str_spec(n, "color"@, "0x000000"@),
        variation: prop_int_spec(n, "variation"@, 10) as i32,
    }
}

pub open spec fn pixels_of(ns: Seq<NodeV>) -> Seq<PixelV> {
    ns.map_values(|c: NodeV| pixel_of_node(c))
}

pub open spec fn macro_of_node(n: NodeV, default_delay: i32) -> MacroV {
    let hold = prop_bool_spec(n, "holdMode"@, false);
    let m = prop_str_spec(n, "mode"@, ""@);
    MacroV {
        name: prop_str_spec(n, "name"@, "Unnamed"@),
        hotkey: lowercase(prop_str_spec(n, "hotkey"@, ""@)),
        delay: prop_int_spec(n, "delay"@, default_delay as i64) as i32,
        mode: if m.len() == 0 {
            if hold {
                "hold"@
            } else {
                "press"@
            }
        } else {
            m
        },
        hold_mode: hold,
        keys: lowered_first_args(named_children(n.children, "key"@)),
        inter_key_delay: prop_int_spec(n, "interKeyDelay"@, 0) as i32,
        enabled: prop_bool_spec(n, "enabled"@, true),
        max_hold_duration: prop_int_spec(n, "maxHoldDuration"@, 0) as i32,
        background: prop_bool_spec(n, "background"@, false),
    }
}

pub open spec fn anchor_of_node(n: NodeV) -> AnchorV {
    AnchorV {
        pixels: pixels_of(named_children(n.children, "pixel"@)),
        match_mode: prop_str_spec(n, "matchMode"@, "all"@),
    }
}

/// A trigger's pixels, anchor and blocker, read from its children in
/// order (a later anchor or blocker replaces an earlier one).
pub open spec fn proc_parts(cs: Seq<NodeV>) -> (Seq<PixelV>, Option<AnchorV>, Option<AnchorV>)
    decreases cs.len(),
{
    if cs.len() == 0 {
        (Seq::empty(), None, None)
    } else {
        let (p, a, b) = proc_parts(cs.drop_last());
        let c = cs.last();
        if c.name == "pixel"@ {
            (p.push(pixel_of_node(c)), a, b)
        } else if c.name == "anchor"@ {
            (p, Some(anchor_of_node(c)), b)
        } else if c.name == "blocker"@ {
            (p, a, Some(anchor_of_node(c)))
        } else {
            (p, a, b)
        }
    }
}

#[verifier::opaque]
pub open spec fn trigger_of_node(n: NodeV) -> PixelTriggerV {
    let parts = proc_parts(n.children);
    let ak = prop_str_spec(n, "actionKey"@, ""@);
    PixelTriggerV {
        name: prop_str_spec(n, "name"@, "Unnamed"@),
        action_key: lowercase(
            if ak.len() == 0 {
                prop_str_spec(n, "key"@, ""@)
            } else {
                ak
            },
        ),
        pixels: parts.0,
        match_mode: prop_str_spec(n, "matchMode"@, "all"@),
        inverse: prop_bool_spec(n, "inverse"@, false),
        enabled: prop_bool_spec(n, "enabled"@, true),
        cooldown: prop_int_spec(n, "cooldown"@, 1000) as i32,
        last_fired: 0,
        trigger_mode: prop_str_spec(n, "triggerMode"@, "macro"@),
        macro_hotkey: lowercase(prop_str_spec(n, "macroHotkey"@, ""@)),
        capture_res: res_spec(prop_str_spec(n, "captureRes"@, ""@)),
        anchor: parts.1,
        blocker: parts.2,
    }
}

/// A buff's watched keys (lowercased) and trigger pixels, from its children.
pub open spec fn buff_parts(cs: Seq<NodeV>) -> (Seq<Seq<char>>, Seq<PixelV>)
    decreases cs.len(),
{
    if cs.len() == 0 {
        (Seq::empty(), Seq::empty())
    } else {
        let (w, p) = buff_parts(cs.drop_last());
        let c = cs.last();
        if c.name == "watchKey"@ {
            match first_arg_str(c) {
                Some(k) => (w.push(lowercase(k)), p),
                None => (w, p),
            }
        } else if c.name == "pixel"@ {
            (w, p.push(pixel_of_node(c)))
        } else {
            (w, p)
        }
    }
}

#[verifier::opaque]
pub open spec fn buff_of_node(n: NodeV) -> BuffTimerV {
    let parts = buff_parts(n.children);
    BuffTimerV {
        name: prop_str_spec(n, "name"@, "Unnamed"@),
        watch_keys: parts.0,
        duration: prop_int_spec(n, "duration"@, 5000) as i32,
        action_key: lowercase(prop_str_spec(n, "actionKey"@, ""@)),
        on_refresh: prop_str_spec(n, "onRefresh"@, "reset"@),
        extend_ms: prop_int_spec(n, "extendMs"@, 0) as i32,
        enabled: prop_bool_spec(n, "enabled"@, true),
        sound_on_expiry: prop_bool_spec(n, "soundOnExpiry"@, false),
        trigger_type: prop_str_spec(n, "triggerType"@, "keys"@),
        trigger_pixels: parts.1,
        trigger_match_mode: prop_str_spec(n, "triggerMatchMode"@, "all"@),
        capture_res: res_spec(prop_str_spec(n, "captureRes"@, ""@)),
    }
}

pub open spec fn detect_of_node(n: NodeV) -> DetectV {
    DetectV {
        pixels: pixels_of(named_children(n.children, "pixel"@)),
        match_mode: prop_str_spec(n, "matchMode"@, "all"@),
        capture_res: res_spec(prop_str_spec(n, "captureRes"@, ""@)),
    }
}

/// A spec's contents, read from its children in order.
pub open spec fn spec_items(cs: Seq<NodeV>, default_delay: i32) -> SpecV
    decreases cs.len(),
{
    if cs.len() == 0 {
        empty_spec_v()
    } else {
        let s = spec_items(cs.drop_last(), default_delay);
        let c = cs.last();
        if c.name == "macro"@ {
            SpecV { macros: s.macros.push(macro_of_node(c, default_delay)), ..s }
        } else if c.name == "proc"@ {
            SpecV { pixel_triggers: s.pixel_triggers.push(trigger_of_node(c)), ..s }
        } else if c.name == "buff"@ {
            SpecV { buff_timers: s.buff_timers.push(buff_of_node(c)), ..s }
        } else if c.name == "detect"@ {
            SpecV { detect: Some(detect_of_node(c)), ..s }
        } else {
            s
        }
    }
}

/// The specs of a class: each `spec` child with a non-empty name, inserted
/// by name in order (a later one replaces an earlier one of the same name).
pub open spec fn specs_of(ns: Seq<NodeV>, default_delay: i32) -> Seq<(Seq<char>, SpecV)>
    decreases ns.len(),
{
    if ns.len() == 0 {
        Seq::empty()
    } else {
        let acc = specs_of(ns.drop_last(), default_delay);
        let name = node_name_arg(ns.last());
        if name.len() == 0 {
            acc
        } else {
            insert_spec(acc, name, spec_items(ns.last().children, default_delay))
        }
    }
}

pub open spec fn class_of_node(n: NodeV, default_delay: i32) -> ClassV {
    ClassV {
        specs: specs_of(named_children(n.children, "spec"@), default_delay),
        icon: prop_str_spec(n, "icon"@, ""@),
    }
}

pub open spec fn classes_of(ns: Seq<NodeV>, default_delay: i32) -> Seq<(Seq<char>, ClassV)>
    decreases ns.len(),
{
    if ns.len() == 0 {
        Seq::empty()
    } else {
        let acc = classes_of(ns.drop_last(), default_delay);
        let name = node_name_arg(ns.last());
        if name.len() == 0 {
            acc
        } else {
            insert_spec(acc, name, class_of_node(ns.last(), default_delay))
        }
    }
}

pub open spec fn game_of_node(n: NodeV, default_delay: i32) -> GameV {
    GameV {
        path: prop_str_spec(n, "path"@, ""@),
        classes: classes_of(named_children(n.children, "class"@), default_delay),
    }
}

/// The tree after reading a `game` node: inserted under its name, which
/// must be non-empty.
pub open spec fn with_game(t: ConfigTreeV, n: NodeV) -> ConfigTreeV {
    let name = node_name_arg(n);
    if name.len() == 0 {
        t
    } else {
        ConfigTreeV {
            games: insert_spec(t.games, name, game_of_node(n, t.settings.default_delay)),
            ..t
        }
    }
}

/// The settings after reading a `settings` node over `s`: each property
/// present replaces the current value.
pub open spec fn settings_of_node(n: NodeV, s: SettingsV) -> SettingsV {
    SettingsV {
        default_delay: prop_int_spec(n, "defaultDelay"@, s.default_delay as i64) as i32,
        auto_detect_game: prop_bool_spec(n, "autoDetectGame"@, s.auto_detect_game),
        only_in_game: prop_bool_spec(n, "onlyInGame"@, s.only_in_game),
        allow_background: prop_bool_spec(n, "allowBackground"@, s.allow_background),
        minimize_to_tray: prop_bool_spec(n, "minimizeToTray"@, s.minimize_to_tray),
        dark_mode: prop_bool_spec(n, "darkMode"@, s.dark_mode),
        toggle_key: prop_str_spec(n, "toggleKey"@, s.toggle_key),
        pixel_check_rate: prop_int_spec(n, "pixelCheckRate"@, s.pixel_check_rate as i64) as i32,
        show_terminal: prop_bool_spec(n, "showTerminal"@, s.show_terminal),
        overlay_position: normalized_position(
            prop_str_spec(n, "overlayPosition"@, s.overlay_position),
        ),
    }
}

/// One top-level node's effect on the tree.
pub open spec fn doc_step(t: ConfigTreeV, n: NodeV) -> ConfigTreeV {
    if n.name == "settings"@ {
        ConfigTreeV { settings: settings_of_node(n, t.settings), ..t }
    } else if n.name == "active"@ {
        ConfigTreeV {
            active_game: prop_str_spec(n, "game"@, ""@),
            active_class: prop_str_spec(n, "class"@, ""@),
            active_spec: prop_str_spec(n, "spec"@, ""@),
            ..t
        }
    } else if n.name == "game"@ {
        with_game(t, n)
    } else {
        t
    }
}

/// The tree after reading the top-level nodes in order.
pub open spec fn parsed_tree(ns: Seq<NodeV>, t: ConfigTreeV) -> ConfigTreeV
    decreases ns.len(),
{
    if ns.len() == 0 {
        t
    } else {
        doc_step(parsed_tree(ns.drop_last(), t), ns.last())
    }
}

/// What loading a document gives: the defaults, read over by the
/// document, then validated.
pub open spec fn loaded_tree(ns: Seq<NodeV>) -> ConfigTreeV {
    validated_tree(parsed_tree(ns, default_tree_v()))
}

// ── Readers ─────────────────────────────────────────────────────────────

/// Prefix lemma for folds written with `drop_last`.
pub proof fn lemma_take_step<T>(s: Seq<T>, i: int)
    requires
        0 <= i < s.len(),
    ensures
        s.take(i + 1).drop_last() == s.take(i),
        s.take(i + 1).last() == s[i],
        s.take(i + 1).len() == i + 1,
{
    assert(s.take(i + 1).drop_last() =~= s.take(i));
}

fn first_arg_string(node: &Node) -> (r: Option<&str>)
    ensures
        match r {
            Some(s) => first_arg_str(node@) == Some(s@),
            None => first_arg_str(node@) is None,
        },
{
    if node.args.len() > 0 {
        proof {
            assert(node@.args[0] == node.args@[0]@);
        }
        node.args[0].as_str()
    } else {
        None
    }
}

fn name_arg(node: &Node) -> (r: &str)
    ensures
        r@ == node_name_arg(node@),
{
    match first_arg_string(node) {
        Some(s) => s,
        None => "",
    }
}

/// The view of a list of node references.
pub open spec fn refs_view(v: Seq<&Node>) -> Seq<NodeV> {
    v.map_values(|c: &Node| c@)
}

fn lowered_args(nodes: &Vec<&Node>) -> (r: Vec<String>)
    ensures
        strings_view(r@) == lowered_first_args(refs_view(nodes@)),
{
    let mut out: Vec<String> = Vec::new();
    let mut i: usize = 0;
    while i < nodes.len()
        invariant
            i <= nodes.len(),
            strings_view(out@) == lowered_first_args(refs_view(nodes@).take(i as int)),
        decreases nodes.len() - i,
    {
        proof {
            lemma_take_step(refs_view(nodes@), i as int);
        }
        let c = nodes[i];
        match first_arg_string(c) {
            Some(s) => {
                out.push(to_lowercase(s));
                proof {
                    assert(strings_view(out@) =~= lowered_first_args(refs_view(nodes@).take(i as int)).push(
                        lowercase(s@),
                    ));
                }
            },
            None => {},
        }
        i += 1;
    }
    proof {
        assert(refs_view(nodes@).take(nodes@.len() as int) =~= refs_view(nodes@));
    }
    out
}

pub fn parse_pixel(node: &Node) -> (r: Pixel)
    ensures
        r@ == pixel_of_node(node@),
{
    let color = node.prop_str("color", "0x000000");
    Pixel {
        x: node.prop_int("x", 0) as i32,
        y: node.prop_int("y", 0) as i32,
        color,
        variation: node.prop_int("variation", 10) as i32,
    }
}

fn parse_pixels(nodes: &Vec<&Node>) -> (r: Vec<Pixel>)
    ensures
        pixels_view(r@) == pixels_of(refs_view(nodes@)),
{
    let mut out: Vec<Pixel> = Vec::new();
    let mut i: usize = 0;
    while i < nodes.len()
        invariant
            i <= nodes.len(),
            out@.len() == i,
            forall|k: int| 0 <= k < i ==> #[trigger] out@[k]@ == pixel_of_node(nodes@[k]@),
        decreases nodes.len() - i,
    {
        out.push(parse_pixel(nodes[i]));
        i += 1;
    }
    proof {
        assert(pixels_view(out@) =~= pixels_of(refs_view(nodes@)));
    }
    out
}

pub fn parse_macro(node: &Node, default_delay: i32) -> (r: Macro)
    ensures
        r@ == macro_of_node(node@, default_delay),
{
    let key_nodes = node.children_named("key");
    let keys = lowered_args(&key_nodes);
    let hold_mode = node.prop_bool("holdMode", false);
    let m = node.prop_str("mode", "");
    let mode = if m.as_str().is_empty() {
        if hold_mode {
            owned("hold")
        } else {
            owned("press")
        }
    } else {
        m
    };
    let hotkey = node.prop_str("hotkey", "");
    Macro {
        name: node.prop_str("name", "Unnamed"),
        hotkey: to_lowercase(hotkey.as_str()),
        delay: node.prop_int("delay", default_delay as i64) as i32,
        mode,
        hold_mode,
        keys,
        inter_key_delay: node.prop_int("interKeyDelay", 0) as i32,
        enabled: node.prop_bool("enabled", true),
        max_hold_duration: node.prop_int("maxHoldDuration", 0) as i32,
        background: node.prop_bool("background", false),
    }
}

fn parse_anchor(node: &Node) -> (r: Anchor)
    ensures
        r@ == anchor_of_node(node@),
{
    let pixel_nodes = node.children_named("pixel");
    Anchor { pixels: parse_pixels(&pixel_nodes), match_mode: node.prop_str("matchMode", "all") }
}

pub fn parse_proc(node: &Node) -> (r: PixelTrigger)
    ensures
        r@ == trigger_of_node(node@),
{
    proof {
        reveal(trigger_of_node);
    }
    let mut pixels: Vec<Pixel> = Vec::new();
    let mut anchor: Option<Anchor> = None;
    let mut blocker: Option<Anchor> = None;
    let mut i: usize = 0;
    while i < node.children.len()
        invariant
            i <= node.children.len(),
            node@.children.len() == node.children@.len(),
            proc_parts(node@.children.take(i as int)) == (
                pixels_view(pixels@),
                anchor_opt_view(anchor),
                anchor_opt_view(blocker),
            ),
        decreases node.children.len() - i,
    {
        let child = &node.children[i];
        proof {
            lemma_take_step(node@.children, i as int);
            assert(node@.children[i as int] == child@);
        }
        if str_eq(child.name.as_str(), "pixel") {
            pixels.push(parse_pixel(child));
            proof {
                assert(pixels_view(pixels@) =~= proc_parts(node@.children.take(i as int)).0.push(
                    pixel_of_node(child@),
                ));
            }
        } else if str_eq(child.name.as_str(), "anchor") {
            anchor = Some(parse_anchor(child));
        } else if str_eq(child.name.as_str(), "blocker") {
            blocker = Some(parse_anchor(child));
        }
        i += 1;
    }
    proof {
        assert(node@.children.take(node.children@.len() as int) =~= node@.children);
    }
    let capture = node.prop_str("captureRes", "");
    let capture_res = parse_res(capture.as_str());
    let ak = node.prop_str("actionKey", "");
    let ak = if ak.as_str().is_empty() {
        node.prop_str("key", "")
    } else {
        ak
    };
    let macro_hotkey = node.prop_str("macroHotkey", "");
    PixelTrigger {
        name: node.prop_str("name", "Unnamed"),
        action_key: to_lowercase(ak.as_str()),
        pixels,
        match_mode: node.prop_str("matchMode", "all"),
        inverse: node.prop_bool("inverse", false),
        enabled: node.prop_bool("enabled", true),
        cooldown: node.prop_int("cooldown", 1000) as i32,
        trigger_mode: node.prop_str("triggerMode", "macro"),
        macro_hotkey: to_lowercase(macro_hotkey.as_str()),
        capture_res,
        anchor,
        blocker,
        last_fired: 0,
    }
}

pub fn parse_buff(node: &Node) -> (r: BuffTimer)
    ensures
        r@ == buff_of_node(node@),
{
    proof {
        reveal(buff_of_node);
    }
    let mut watch_keys: Vec<String> = Vec::new();
    let mut pixels: Vec<Pixel> = Vec::new();
    let mut i: usize = 0;
    while i < node.children.len()
        invariant
            i <= node.children.len(),
            node@.children.len() == node.children@.len(),
            buff_parts(node@.children.take(i as int)) == (strings_view(watch_keys@), pixels_view(pixels@)),
        decreases node.children.len() - i,
    {
        let child = &node.children[i];
        proof {
            lemma_take_step(node@.children, i as int);
            assert(node@.children[i as int] == child@);
        }
        if str_eq(child.name.as_str(), "watchKey") {
            match first_arg_string(child) {
                Some(k) => {
                    watch_keys.push(to_lowercase(k));
                    proof {
                        assert(strings_view(watch_keys@) =~= buff_parts(node@.children.take(i as int)).0.push(
                            lowercase(k@),
                        ));
                    }
                },
                None => {},
            }
        } else if str_eq(child.name.as_str(), "pixel") {
            pixels.push(parse_pixel(child));
            proof {
                assert(pixels_view(pixels@) =~= buff_parts(node@.children.take(i as int)).1.push(
                    pixel_of_node(child@),
                ));
            }
        }
        i += 1;
    }
    proof {
        assert(node@.children.take(node.children@.len() as int) =~= node@.children);
    }
    let action_key = node.prop_str("actionKey", "");
    let capture = node.prop_str("captureRes", "");
    BuffTimer {
        name: node.prop_str("name", "Unnamed"),
        watch_keys,
        duration: node.prop_int("duration", 5000) as i32,
        action_key: to_lowercase(action_key.as_str()),
        on_refresh: node.prop_str("onRefresh", "reset"),
        extend_ms: node.prop_int("extendMs", 0) as i32,
        enabled: node.prop_bool("enabled", true),
        sound_on_expiry: node.prop_bool("soundOnExpiry", false),
        trigger_type: node.prop_str("triggerType", "keys"),
        trigger_pixels: pixels,
        trigger_match_mode: node.prop_str("triggerMatchMode", "all"),
        capture_res: parse_res(capture.as_str()),
    }
}

pub fn parse_detect(node: &Node) -> (r: Detect)
    ensures
        r@ == detect_of_node(node@),
{
    let pixel_nodes = node.children_named("pixel");
    let capture = node.prop_str("captureRes", "");
    Detect {
        pixels: parse_pixels(&pixel_nodes),
        match_mode: node.prop_str("matchMode", "all"),
        capture_res: parse_res(capture.as_str()),
    }
}

fn parse_spec_items(node: &Node, default_delay: i32) -> (r: Spec)
    ensures
        r@ == spec_items(node@.children, default_delay),
{
    let mut spec = Spec::default();
    let mut i: usize = 0;
    while i < node.children.len()
        invariant
            i <= node.children.len(),
            node@.children.len() == node.children@.len(),
            spec@ == spec_items(node@.children.take(i as int), default_delay),
        decreases node.children.len() - i,
    {
        let item = &node.children[i];
        proof {
            lemma_take_step(node@.children, i as int);
            assert(node@.children[i as int] == item@);
        }
        let ghost before = spec@;
        if str_eq(item.name.as_str(), "macro") {
            spec.macros.push(parse_macro(item, default_delay));
            proof {
                assert(spec@.macros =~= before.macros.push(macro_of_node(item@, default_delay)));
            }
        } else if str_eq(item.name.as_str(), "proc") {
            spec.pixel_triggers.push(parse_proc(item));
            proof {
                assert(spec@.pixel_triggers =~= before.pixel_triggers.push(trigger_of_node(item@)));
            }
        } else if str_eq(item.name.as_str(), "buff") {
            spec.buff_timers.push(parse_buff(item));
            proof {
                assert(spec@.buff_timers =~= before.buff_timers.push(buff_of_node(item@)));
            }
        } else if str_eq(item.name.as_str(), "detect") {
            spec.detect = Some(parse_detect(item));
        }
        i += 1;
    }
    proof {
        assert(node@.children.take(node.children@.len() as int) =~= node@.children);
    }
    spec
}

fn parse_class(node: &Node, default_delay: i32) -> (r: Class)
    ensures
        r@ == class_of_node(node@, default_delay),
{
    let spec_nodes = node.children_named("spec");
    let mut specs: NameMap<Spec> = NameMap::new();
    let mut i: usize = 0;
    while i < spec_nodes.len()
        invariant
            i <= spec_nodes.len(),
            specs@ == specs_of(refs_view(spec_nodes@).take(i as int), default_delay),
        decreases spec_nodes.len() - i,
    {
        let spec_node = spec_nodes[i];
        proof {
            lemma_take_step(refs_view(spec_nodes@), i as int);
        }
        let spec_name = name_arg(spec_node);
        if !spec_name.is_empty() {
            let spec = parse_spec_items(spec_node, default_delay);
            specs.insert(owned(spec_name), spec);
        }
        i += 1;
    }
    proof {
        assert(refs_view(spec_nodes@).take(spec_nodes@.len() as int) =~= refs_view(spec_nodes@));
    }
    Class { specs, icon: node.prop_str("icon", "") }
}

pub fn parse_game(node: &Node, tree: &mut ConfigTree)
    ensures
        final(tree)@ == with_game(old(tree)@, node@),
{
    let name = name_arg(node);
    if name.is_empty() {
        return;
    }
    let dd = tree.settings.default_delay;
    let class_nodes = node.children_named("class");
    let mut classes: NameMap<Class> = NameMap::new();
    let mut i: usize = 0;
    while i < class_nodes.len()
        invariant
            i <= class_nodes.len(),
            classes@ == classes_of(refs_view(class_nodes@).take(i as int), dd),
        decreases class_nodes.len() - i,
    {
        let class_node = class_nodes[i];
        proof {
            lemma_take_step(refs_view(class_nodes@), i as int);
        }
        let class_name = name_arg(class_node);
        if !class_name.is_empty() {
            let class = parse_class(class_node, dd);
            classes.insert(owned(class_name), class);
        }
        i += 1;
    }
    proof {
        assert(refs_view(class_nodes@).take(class_nodes@.len() as int) =~= refs_view(class_nodes@));
    }
    let game = Game { path: node.prop_str("path", ""), classes };
    tree.games.insert(owned(name), game);
}

pub fn parse_settings(node: &Node, tree: &mut ConfigTree)
    ensures
        final(tree)@ == (ConfigTreeV { settings: settings_of_node(node@, old(tree)@.settings), ..old(tree)@ }),
{
    let s = &mut tree.settings;
    s.default_delay = node.prop_int("defaultDelay", s.default_delay as i64) as i32;
    s.auto_detect_game = node.prop_bool("autoDetectGame", s.auto_detect_game);
    s.only_in_game = node.prop_bool("onlyInGame", s.only_in_game);
    s.allow_background = node.prop_bool("allowBackground", s.allow_background);
    s.minimize_to_tray = node.prop_bool("minimizeToTray", s.minimize_to_tray);
    s.dark_mode = node.prop_bool("darkMode", s.dark_mode);
    s.toggle_key = node.prop_str("toggleKey", s.toggle_key.as_str());
    s.pixel_check_rate = node.prop_int("pixelCheckRate", s.pixel_check_rate as i64) as i32;
    s.show_terminal = node.prop_bool("showTerminal", s.show_terminal);
    let position = node.prop_str("overlayPosition", s.overlay_position.as_str());
    s.overlay_position = normalize_overlay_position(position.as_str());
}

/// Read every top-level node of the document into `tree`, in order.
pub fn parse_doc(doc: &Document, tree: &mut ConfigTree)
    ensures
        final(tree)@ == parsed_tree(doc@, old(tree)@),
{
    let ghost t0 = old(tree)@;
    let mut i: usize = 0;
    while i < doc.nodes.len()
        invariant
            i <= doc.nodes.len(),
            doc@.len() == doc.nodes@.len(),
            tree@ == parsed_tree(doc@.take(i as int), t0),
        decreases doc.nodes.len() - i,
    {
        let node = &doc.nodes[i];
        proof {
            lemma_take_step(doc@, i as int);
            assert(doc@[i as int] == node@);
        }
        if str_eq(node.name.as_str(), "settings") {
            parse_settings(node, tree);
        } else if str_eq(node.name.as_str(), "active") {
            tree.active_game = node.prop_str("game", "");
            tree.active_class = node.prop_str("class", "");
            tree.active_spec = node.prop_str("spec", "");
        } else if str_eq(node.name.as_str(), "game") {
            parse_game(node, tree);
        }
        i += 1;
    }
    proof {
        assert(doc@.take(doc.nodes@.len() as int) =~= doc@);
    }
}

/// The tree a loaded document stands for: the defaults, read over by the
/// document, then validated.
pub fn tree_from_document(doc: &Document) -> (r: ConfigTree)
    ensures
        r@ == loaded_tree(doc@),
{
    let mut tree = ConfigTree::default();
    parse_doc(doc, &mut tree);
    validate(&mut tree);
    tree
}

} // verus!
