//! Writing the configuration tree out as a config.kdl document.
//!
//! The document is stated node by node: which properties each node carries,
//! in which order, and which children it has.

use vstd::prelude::*;
use crate::config::{
    Anchor, BuffTimer, ConfigTree, Detect, Game, Macro, Pixel, PixelTrigger, Resolution, Spec, Class,
    AnchorV, BuffTimerV, ClassV, ConfigTreeV, DetectV, GameV, MacroV, PixelV, PixelTriggerV, SpecV,
    res_str, res_text, pixels_view, strings_view, macros_view, triggers_view, buffs_view,
};
use crate::document::{
    Document, Node, NodeV, NodeValue, ValueV, nodes_view, props_view, values_view, lemma_map_push, lemma_take_push,
};
use crate::text::owned;

verus! {

// ── Specifications ──────────────────────────────────────────────────────

pub open spec fn node_v(
    name: Seq<char>,
    args: Seq<ValueV>,
    props: Seq<(Seq<char>, ValueV)>,
    children: Seq<NodeV>,
) -> NodeV {
    NodeV { name, args, props, children }
}

/// A node with one string argument, no properties and no children.
pub open spec fn leaf_v(name: Seq<char>, arg: Seq<char>) -> NodeV {
    node_v(name, seq![ValueV::Str(arg)], Seq::empty(), Seq::empty())
}

pub open spec fn pixel_node_v(p: PixelV) -> NodeV {
    node_v(
        "pixel"@,
        Seq::empty(),
        seq![
            ("x"@, ValueV::Int(p.x as i64)),
            ("y"@, ValueV::Int(p.y as i64)),
            ("color"@, ValueV::Str(p.color)),
            ("variation"@, ValueV::Int(p.variation as i64)),
        ],
        Seq::empty(),
    )
}

pub open spec fn pixel_nodes_v(ps: Seq<PixelV>) -> Seq<NodeV> {
    ps.map_values(|p: PixelV| pixel_node_v(p))
}

/// `captureRes`, written only when the resolution's text is non-empty.
pub open spec fn res_prop_v(r: Option<Resolution>) -> Seq<(Seq<char>, ValueV)> {
    if res_text(r).len() == 0 {
        Seq::empty()
    } else {
        seq![("captureRes"@, ValueV::Str(res_text(r)))]
    }
}

pub open spec fn detect_nodes_v(d: Option<DetectV>) -> Seq<NodeV> {
    match d {
        Some(d) => if d.pixels.len() == 0 {
            Seq::empty()
        } else {
            seq![
                node_v(
                    "detect"@,
                    Seq::empty(),
                    seq![("matchMode"@, ValueV::Str(d.match_mode))] + res_prop_v(d.capture_res),
                    pixel_nodes_v(d.pixels),
                ),
            ]
        },
        None => Seq::empty(),
    }
}

pub open spec fn macro_node_v(m: MacroV) -> NodeV {
    node_v(
        "macro"@,
        Seq::empty(),
        seq![
            ("name"@, ValueV::Str(m.name)),
            ("hotkey"@, ValueV::Str(m.hotkey)),
            ("delay"@, ValueV::Int(m.delay as i64)),
            ("mode"@, ValueV::Str(m.mode)),
            ("interKeyDelay"@, ValueV::Int(m.inter_key_delay as i64)),
            ("enabled"@, ValueV::Bool(m.enabled)),
            ("maxHoldDuration"@, ValueV::Int(m.max_hold_duration as i64)),
            ("background"@, ValueV::Bool(m.background)),
        ],
        m.keys.map_values(|k: Seq<char>| leaf_v("key"@, k)),
    )
}

/// An anchor or blocker, written only when it has pixels.
pub open spec fn anchor_nodes_v(name: Seq<char>, a: Option<AnchorV>) -> Seq<NodeV> {
    match a {
        Some(a) => if a.pixels.len() == 0 {
            Seq::empty()
        } else {
            seq![
                node_v(
                    name,
                    Seq::empty(),
                    seq![("matchMode"@, ValueV::Str(a.match_mode))],
                    pixel_nodes_v(a.pixels),
                ),
            ]
        },
        None => Seq::empty(),
    }
}

pub open spec fn proc_node_v(p: PixelTriggerV) -> NodeV {
    node_v(
        "proc"@,
        Seq::empty(),
        seq![
            ("name"@, ValueV::Str(p.name)),
            ("actionKey"@, ValueV::Str(p.action_key)),
            ("matchMode"@, ValueV::Str(p.match_mode)),
            ("triggerMode"@, ValueV::Str(p.trigger_mode)),
            ("inverse"@, ValueV::Bool(p.inverse)),
            ("enabled"@, ValueV::Bool(p.enabled)),
            ("cooldown"@, ValueV::Int(p.cooldown as i64)),
            ("macroHotkey"@, ValueV::Str(p.macro_hotkey)),
        ] + res_prop_v(p.capture_res),
        anchor_nodes_v("anchor"@, p.anchor) + anchor_nodes_v("blocker"@, p.blocker) + pixel_nodes_v(
            p.pixels,
        ),
    )
}

pub open spec fn buff_node_v(b: BuffTimerV) -> NodeV {
    node_v(
        "buff"@,
        Seq::empty(),
        seq![
            ("name"@, ValueV::Str(b.name)),
            ("triggerType"@, ValueV::Str(b.trigger_type)),
            ("duration"@, ValueV::Int(b.duration as i64)),
            ("actionKey"@, ValueV::Str(b.action_key)),
            ("onRefresh"@, ValueV::Str(b.on_refresh)),
            ("extendMs"@, ValueV::Int(b.extend_ms as i64)),
            ("enabled"@, ValueV::Bool(b.enabled)),
            ("soundOnExpiry"@, ValueV::Bool(b.sound_on_expiry)),
            ("triggerMatchMode"@, ValueV::Str(b.trigger_match_mode)),
        ] + res_prop_v(b.capture_res),
        b.watch_keys.map_values(|k: Seq<char>| leaf_v("watchKey"@, k)) + pixel_nodes_v(
            b.trigger_pixels,
        ),
    )
}

/// A spec node: its detector, then its macros, triggers and buffs.
pub open spec fn spec_node_v(name: Seq<char>, s: SpecV) -> NodeV {
    node_v(
        "spec"@,
        seq![ValueV::Str(name)],
        Seq::empty(),
        detect_nodes_v(s.detect) + s.macros.map_values(|m: MacroV| macro_node_v(m))
            + s.pixel_triggers.map_values(|p: PixelTriggerV| proc_node_v(p))
            + s.buff_timers.map_values(|b: BuffTimerV| buff_node_v(b)),
    )
}

pub open spec fn class_node_v(name: Seq<char>, c: ClassV) -> NodeV {
    node_v(
        "class"@,
        seq![ValueV::Str(name)],
        if c.icon.len() == 0 {
            Seq::empty()
        } else {
            seq![("icon"@, ValueV::Str(c.icon))]
        },
        c.specs.map_values(|e: (Seq<char>, SpecV)| spec_node_v(e.0, e.1)),
    )
}

pub open spec fn game_node_v(name: Seq<char>, g: GameV) -> NodeV {
    node_v(
        "game"@,
        seq![ValueV::Str(name)],
        seq![("path"@, ValueV::Str(g.path))],
        g.classes.map_values(|e: (Seq<char>, ClassV)| class_node_v(e.0, e.1)),
    )
}

/// The document for a tree: settings, the active selection, then one node
/// per game in name order.
pub open spec fn doc_of_tree(t: ConfigTreeV) -> Seq<NodeV> {
    seq![
        node_v(
            "settings"@,
            Seq::empty(),
            seq![
                ("defaultDelay"@, ValueV::Int(t.settings.default_delay as i64)),
                ("autoDetectGame"@, ValueV::Bool(t.settings.auto_detect_game)),
                ("onlyInGame"@, ValueV::Bool(t.settings.only_in_game)),
                ("allowBackground"@, ValueV::Bool(t.settings.allow_background)),
                ("minimizeToTray"@, ValueV::Bool(t.settings.minimize_to_tray)),
                ("darkMode"@, ValueV::Bool(t.settings.dark_mode)),
                ("toggleKey"@, ValueV::Str(t.settings.toggle_key)),
                ("pixelCheckRate"@, ValueV::Int(t.settings.pixel_check_rate as i64)),
                ("showTerminal"@, ValueV::Bool(t.settings.show_terminal)),
                ("overlayPosition"@, ValueV::Str(t.settings.overlay_position)),
            ],
            Seq::empty(),
        ),
        node_v(
            "active"@,
            Seq::empty(),
            seq![
                ("game"@, ValueV::Str(t.active_game)),
                ("class"@, ValueV::Str(t.active_class)),
                ("spec"@, ValueV::Str(t.active_spec)),
            ],
            Seq::empty(),
        ),
    ] + t.games.map_values(|e: (Seq<char>, GameV)| game_node_v(e.0, e.1))
}

// ── Builders ────────────────────────────────────────────────────────────

/// A node's view is the views of its parts.
pub proof fn lemma_node_view(n: Node)
    ensures
        n@ == node_v(n.name@, values_view(n.args@), props_view(n.props@), nodes_view(n.children@)),
{
    assert(n@.children =~= nodes_view(n.children@));
}

fn make_node(name: &str, args: Vec<NodeValue>, props: Vec<(String, NodeValue)>, children: Vec<Node>) -> (r: Node)
    ensures
        r@ == node_v(name@, values_view(args@), props_view(props@), nodes_view(children@)),
{
    let r = Node { name: owned(name), args, props, children };
    proof {
        lemma_node_view(r);
    }
    r
}

fn str_prop(key: &str, v: &String) -> (r: (String, NodeValue))
    ensures
        r.0@ == key@,
        r.1@ == ValueV::Str(v@),
{
    (owned(key), NodeValue::Str(v.clone()))
}

fn int_prop(key: &str, v: i32) -> (r: (String, NodeValue))
    ensures
        r.0@ == key@,
        r.1@ == ValueV::Int(v as i64),
{
    (owned(key), NodeValue::Int(v as i64))
}

fn bool_prop(key: &str, v: bool) -> (r: (String, NodeValue))
    ensures
        r.0@ == key@,
        r.1@ == ValueV::Bool(v),
{
    (owned(key), NodeValue::Bool(v))
}

fn leaf(name: &str, arg: &String) -> (r: Node)
    ensures
        r@ == leaf_v(name@, arg@),
{
    let mut args: Vec<NodeValue> = Vec::new();
    args.push(NodeValue::Str(arg.clone()));
    proof {
        assert(values_view(args@) =~= seq![ValueV::Str(arg@)]);
    }
    let r = make_node(name, args, Vec::new(), Vec::new());
    proof {
        assert(props_view(Seq::<(String, NodeValue)>::empty()) =~= Seq::empty());
        assert(nodes_view(Seq::<Node>::empty()) =~= Seq::empty());
    }
    r
}

fn push_leaves(out: &mut Vec<Node>, name: &str, keys: &Vec<String>)
    ensures
        nodes_view(final(out)@) == nodes_view(old(out)@) + strings_view(keys@).map_values(
            |k: Seq<char>| leaf_v(name@, k),
        ),
{
    let ghost start = nodes_view(out@);
    let mut i: usize = 0;
    while i < keys.len()
        invariant
            i <= keys.len(),
            nodes_view(out@) == start + strings_view(keys@).take(i as int).map_values(
                |k: Seq<char>| leaf_v(name@, k),
            ),
        decreases keys.len() - i,
    {
        let ghost prev = out@;
        out.push(leaf(name, &keys[i]));
        proof {
            lemma_map_push(prev, out@.last(), |n: Node| n@);
            lemma_take_push(strings_view(keys@), i as int);
            lemma_map_push(strings_view(keys@).take(i as int), strings_view(keys@)[i as int], |k: Seq<char>| leaf_v(name@, k));
            assert(nodes_view(out@) =~= start + strings_view(keys@).take(i + 1).map_values(|k: Seq<char>| leaf_v(name@, k)));
        }
        i += 1;
    }
    proof {
        assert(strings_view(keys@).take(keys@.len() as int) =~= strings_view(keys@));
    }
}

pub fn pixel_node(px: &Pixel) -> (r: Node)
    ensures
        r@ == pixel_node_v(px@),
{
    let mut props: Vec<(String, NodeValue)> = Vec::new();
    props.push(int_prop("x", px.x));
    props.push(int_prop("y", px.y));
    props.push(str_prop("color", &px.color));
    props.push(int_prop("variation", px.variation));
    proof {
        assert(props_view(props@) =~= pixel_node_v(px@).props);
    }
    let r = make_node("pixel", Vec::new(), props, Vec::new());
    proof {
        assert(values_view(Seq::<NodeValue>::empty()) =~= Seq::empty());
        assert(nodes_view(Seq::<Node>::empty()) =~= Seq::empty());
    }
    r
}

fn push_pixel_nodes(out: &mut Vec<Node>, pixels: &Vec<Pixel>)
    ensures
        nodes_view(final(out)@) == nodes_view(old(out)@) + pixel_nodes_v(pixels_view(pixels@)),
{
    let ghost start = nodes_view(out@);
    let mut i: usize = 0;
    while i < pixels.len()
        invariant
            i <= pixels.len(),
            nodes_view(out@) == start + pixel_nodes_v(pixels_view(pixels@).take(i as int)),
        decreases pixels.len() - i,
    {
        let ghost prev = out@;
        out.push(pixel_node(&pixels[i]));
        proof {
            lemma_map_push(prev, out@.last(), |n: Node| n@);
            lemma_take_push(pixels_view(pixels@), i as int);
            lemma_map_push(pixels_view(pixels@).take(i as int), pixels_view(pixels@)[i as int], |p: PixelV| pixel_node_v(p));
            assert(nodes_view(out@) =~= start + pixels_view(pixels@).take(i + 1).map_values(|p: PixelV| pixel_node_v(p)));
        }
        i += 1;
    }
    proof {
        assert(pixels_view(pixels@).take(pixels@.len() as int) =~= pixels_view(pixels@));
    }
}

fn push_res_prop(props: &mut Vec<(String, NodeValue)>, r: &Option<Resolution>)
    ensures
        props_view(final(props)@) == props_view(old(props)@) + res_prop_v(*r),
{
    let cr = res_str(r);
    if !cr.as_str().is_empty() {
        props.push((owned("captureRes"), NodeValue::Str(cr)));
        proof {
            assert(props_view(props@) =~= props_view(old(props)@) + res_prop_v(*r));
        }
    } else {
        proof {
            assert(props_view(props@) =~= props_view(old(props)@) + res_prop_v(*r));
        }
    }
}

fn push_detect_node(out: &mut Vec<Node>, detect: &Option<Detect>)
    ensures
        nodes_view(final(out)@) == nodes_view(old(out)@) + detect_nodes_v(
            match *detect {
                Some(d) => Some(d@),
                None => None,
            },
        ),
{
    match detect {
        Some(d) => {
            if d.pixels.len() > 0 {
                let mut props: Vec<(String, NodeValue)> = Vec::new();
                props.push(str_prop("matchMode", &d.match_mode));
                proof {
                    assert(props_view(props@) =~= seq![("matchMode"@, ValueV::Str(d.match_mode@))]);
                }
                push_res_prop(&mut props, &d.capture_res);
                let mut children: Vec<Node> = Vec::new();
                push_pixel_nodes(&mut children, &d.pixels);
                let n = make_node("detect", Vec::new(), props, children);
                out.push(n);
                proof {
                    assert(values_view(Seq::<NodeValue>::empty()) =~= Seq::empty());
                    assert(nodes_view(Seq::<Node>::empty()) =~= Seq::empty());
                    assert(nodes_view(out@) =~= nodes_view(old(out)@) + seq![n@]);
                }
            } else {
                proof {
                    assert(nodes_view(out@) =~= nodes_view(old(out)@) + Seq::empty());
                }
            }
        },
        None => {
            proof {
                assert(nodes_view(out@) =~= nodes_view(old(out)@) + Seq::empty());
            }
        },
    }
}

fn macro_node(m: &Macro) -> (r: Node)
    ensures
        r@ == macro_node_v(m@),
{
    let mut props: Vec<(String, NodeValue)> = Vec::new();
    props.push(str_prop("name", &m.name));
    props.push(str_prop("hotkey", &m.hotkey));
    props.push(int_prop("delay", m.delay));
    props.push(str_prop("mode", &m.mode));
    props.push(int_prop("interKeyDelay", m.inter_key_delay));
    props.push(bool_prop("enabled", m.enabled));
    props.push(int_prop("maxHoldDuration", m.max_hold_duration));
    props.push(bool_prop("background", m.background));
    proof {
        assert(props_view(props@) =~= macro_node_v(m@).props);
    }
    let mut children: Vec<Node> = Vec::new();
    push_leaves(&mut children, "key", &m.keys);
    let r = make_node("macro", Vec::new(), props, children);
    proof {
        assert(values_view(Seq::<NodeValue>::empty()) =~= Seq::empty());
        assert(nodes_view(Seq::<Node>::empty()) =~= Seq::empty());
        assert(r@.children =~= macro_node_v(m@).children);
    }
    r
}

fn push_anchor_node(out: &mut Vec<Node>, name: &str, anchor: &Option<Anchor>)
    ensures
        nodes_view(final(out)@) == nodes_view(old(out)@) + anchor_nodes_v(
            name@,
            match *anchor {
                Some(a) => Some(a@),
                None => None,
            },
        ),
{
    match anchor {
        Some(a) => {
            if a.pixels.len() > 0 {
                let mut props: Vec<(String, NodeValue)> = Vec::new();
                props.push(str_prop("matchMode", &a.match_mode));
                proof {
                    assert(props_view(props@) =~= seq![("matchMode"@, ValueV::Str(a.match_mode@))]);
                }
                let mut children: Vec<Node> = Vec::new();
                push_pixel_nodes(&mut children, &a.pixels);
                let n = make_node(name, Vec::new(), props, children);
                out.push(n);
                proof {
                    assert(values_view(Seq::<NodeValue>::empty()) =~= Seq::empty());
                    assert(nodes_view(Seq::<Node>::empty()) =~= Seq::empty());
                    assert(nodes_view(out@) =~= nodes_view(old(out)@) + seq![n@]);
                }
            } else {
                proof {
                    assert(nodes_view(out@) =~= nodes_view(old(out)@) + Seq::empty());
                }
            }
        },
        None => {
            proof {
                assert(nodes_view(out@) =~= nodes_view(old(out)@) + Seq::empty());
            }
        },
    }
}

fn proc_node(p: &PixelTrigger) -> (r: Node)
    ensures
        r@ == proc_node_v(p@),
{
    let mut props: Vec<(String, NodeValue)> = Vec::new();
    props.push(str_prop("name", &p.name));
    props.push(str_prop("actionKey", &p.action_key));
    props.push(str_prop("matchMode", &p.match_mode));
    props.push(str_prop("triggerMode", &p.trigger_mode));
    props.push(bool_prop("inverse", p.inverse));
    props.push(bool_prop("enabled", p.enabled));
    props.push(int_prop("cooldown", p.cooldown));
    props.push(str_prop("macroHotkey", &p.macro_hotkey));
    proof {
        assert(props_view(props@) =~= seq![
            ("name"@, ValueV::Str(p@.name)),
            ("actionKey"@, ValueV::Str(p@.action_key)),
            ("matchMode"@, ValueV::Str(p@.match_mode)),
            ("triggerMode"@, ValueV::Str(p@.trigger_mode)),
            ("inverse"@, ValueV::Bool(p@.inverse)),
            ("enabled"@, ValueV::Bool(p@.enabled)),
            ("cooldown"@, ValueV::Int(p@.cooldown as i64)),
            ("macroHotkey"@, ValueV::Str(p@.macro_hotkey)),
        ]);
    }
    push_res_prop(&mut props, &p.capture_res);
    let mut children: Vec<Node> = Vec::new();
    proof {
        assert(nodes_view(children@) =~= Seq::<NodeV>::empty());
    }
    push_anchor_node(&mut children, "anchor", &p.anchor);
    push_anchor_node(&mut children, "blocker", &p.blocker);
    push_pixel_nodes(&mut children, &p.pixels);
    let r = make_node("proc", Vec::new(), props, children);
    proof {
        assert(values_view(Seq::<NodeValue>::empty()) =~= Seq::empty());
        assert(r@.children =~= proc_node_v(p@).children);
    }
    r
}

fn buff_node(b: &BuffTimer) -> (r: Node)
    ensures
        r@ == buff_node_v(b@),
{
    let mut props: Vec<(String, NodeValue)> = Vec::new();
    props.push(str_prop("name", &b.name));
    props.push(str_prop("triggerType", &b.trigger_type));
    props.push(int_prop("duration", b.duration));
    props.push(str_prop("actionKey", &b.action_key));
    props.push(str_prop("onRefresh", &b.on_refresh));
    props.push(int_prop("extendMs", b.extend_ms));
    props.push(bool_prop("enabled", b.enabled));
    props.push(bool_prop("soundOnExpiry", b.sound_on_expiry));
    props.push(str_prop("triggerMatchMode", &b.trigger_match_mode));
    proof {
        assert(props_view(props@) =~= seq![
            ("name"@, ValueV::Str(b@.name)),
            ("triggerType"@, ValueV::Str(b@.trigger_type)),
            ("duration"@, ValueV::Int(b@.duration as i64)),
            ("actionKey"@, ValueV::Str(b@.action_key)),
            ("onRefresh"@, ValueV::Str(b@.on_refresh)),
            ("extendMs"@, ValueV::Int(b@.extend_ms as i64)),
            ("enabled"@, ValueV::Bool(b@.enabled)),
            ("soundOnExpiry"@, ValueV::Bool(b@.sound_on_expiry)),
            ("triggerMatchMode"@, ValueV::Str(b@.trigger_match_mode)),
        ]);
    }
    push_res_prop(&mut props, &b.capture_res);
    let mut children: Vec<Node> = Vec::new();
    proof {
        assert(nodes_view(children@) =~= Seq::<NodeV>::empty());
    }
    push_leaves(&mut children, "watchKey", &b.watch_keys);
    push_pixel_nodes(&mut children, &b.trigger_pixels);
    let r = make_node("buff", Vec::new(), props, children);
    proof {
        assert(values_view(Seq::<NodeValue>::empty()) =~= Seq::empty());
        assert(r@.children =~= buff_node_v(b@).children);
    }
    r
}

fn spec_node(name: &String, sp: &Spec) -> (r: Node)
    ensures
        r@ == spec_node_v(name@, sp@),
{
    let mut children: Vec<Node> = Vec::new();
    proof {
        assert(nodes_view(children@) =~= Seq::<NodeV>::empty());
    }
    push_detect_node(&mut children, &sp.detect);
    let ghost c0 = nodes_view(children@);
    let mut i: usize = 0;
    while i < sp.macros.len()
        invariant
            i <= sp.macros.len(),
            nodes_view(children@) == c0 + macros_view(sp.macros@).take(i as int).map_values(
                |m: MacroV| macro_node_v(m),
            ),
        decreases sp.macros.len() - i,
    {
        let ghost prev = children@;
        children.push(macro_node(&sp.macros[i]));
        proof {
            lemma_map_push(prev, children@.last(), |n: Node| n@);
            lemma_take_push(macros_view(sp.macros@), i as int);
            lemma_map_push(macros_view(sp.macros@).take(i as int), macros_view(sp.macros@)[i as int], |m: MacroV| macro_node_v(m));
            assert(nodes_view(children@) =~= c0 + macros_view(sp.macros@).take(i + 1).map_values(|m: MacroV| macro_node_v(m)));
        }
        i += 1;
    }
    proof {
        assert(macros_view(sp.macros@).take(sp.macros@.len() as int) =~= macros_view(sp.macros@));
    }
    let ghost c1 = nodes_view(children@);
    let mut i: usize = 0;
    while i < sp.pixel_triggers.len()
        invariant
            i <= sp.pixel_triggers.len(),
            nodes_view(children@) == c1 + triggers_view(sp.pixel_triggers@).take(i as int).map_values(
                |p: PixelTriggerV| proc_node_v(p),
            ),
        decreases sp.pixel_triggers.len() - i,
    {
        let ghost prev = children@;
        children.push(proc_node(&sp.pixel_triggers[i]));
        proof {
            lemma_map_push(prev, children@.last(), |n: Node| n@);
            lemma_take_push(triggers_view(sp.pixel_triggers@), i as int);
            lemma_map_push(triggers_view(sp.pixel_triggers@).take(i as int), triggers_view(sp.pixel_triggers@)[i as int], |p: PixelTriggerV| proc_node_v(p));
            assert(nodes_view(children@) =~= c1 + triggers_view(sp.pixel_triggers@).take(i + 1).map_values(|p: PixelTriggerV| proc_node_v(p)));
        }
        i += 1;
    }
    proof {
        assert(triggers_view(sp.pixel_triggers@).take(sp.pixel_triggers@.len() as int) =~= triggers_view(sp.pixel_triggers@));
    }
    let ghost c2 = nodes_view(children@);
    let mut i: usize = 0;
    while i < sp.buff_timers.len()
        invariant
            i <= sp.buff_timers.len(),
            nodes_view(children@) == c2 + buffs_view(sp.buff_timers@).take(i as int).map_values(
                |b: BuffTimerV| buff_node_v(b),
            ),
        decreases sp.buff_timers.len() - i,
    {
        let ghost prev = children@;
        children.push(buff_node(&sp.buff_timers[i]));
        proof {
            lemma_map_push(prev, children@.last(), |n: Node| n@);
            lemma_take_push(buffs_view(sp.buff_timers@), i as int);
            lemma_map_push(buffs_view(sp.buff_timers@).take(i as int), buffs_view(sp.buff_timers@)[i as int], |b: BuffTimerV| buff_node_v(b));
            assert(nodes_view(children@) =~= c2 + buffs_view(sp.buff_timers@).take(i + 1).map_values(|b: BuffTimerV| buff_node_v(b)));
        }
        i += 1;
    }
    proof {
        assert(buffs_view(sp.buff_timers@).take(sp.buff_timers@.len() as int) =~= buffs_view(sp.buff_timers@));
    }
    let mut args: Vec<NodeValue> = Vec::new();
    args.push(NodeValue::Str(name.clone()));
    proof {
        assert(values_view(args@) =~= seq![ValueV::Str(name@)]);
    }
    let r = make_node("spec", args, Vec::new(), children);
    proof {
        assert(props_view(Seq::<(String, NodeValue)>::empty()) =~= Seq::empty());
        assert(r@.children =~= spec_node_v(name@, sp@).children);
    }
    r
}

fn class_node(name: &String, c: &Class) -> (r: Node)
    ensures
        r@ == class_node_v(name@, c@),
{
    let mut props: Vec<(String, NodeValue)> = Vec::new();
    if !c.icon.as_str().is_empty() {
        props.push(str_prop("icon", &c.icon));
    }
    proof {
        assert(props_view(props@) =~= class_node_v(name@, c@).props);
    }
    let mut children: Vec<Node> = Vec::new();
    let mut i: usize = 0;
    while i < c.specs.len()
        invariant
            i <= c.specs@.len(),
            nodes_view(children@) == c@.specs.take(i as int).map_values(
                |e: (Seq<char>, SpecV)| spec_node_v(e.0, e.1),
            ),
        decreases c.specs@.len() - i,
    {
        let ghost prev = children@;
        children.push(spec_node(c.specs.key_at(i), c.specs.value_at(i)));
        proof {
            lemma_map_push(prev, children@.last(), |n: Node| n@);
            lemma_take_push(c@.specs, i as int);
            lemma_map_push(c@.specs.take(i as int), c@.specs[i as int], |e: (Seq<char>, SpecV)| spec_node_v(e.0, e.1));
            assert(nodes_view(children@) =~= c@.specs.take(i + 1).map_values(|e: (Seq<char>, SpecV)| spec_node_v(e.0, e.1)));
        }
        i += 1;
    }
    proof {
        assert(c@.specs.take(c@.specs.len() as int) =~= c@.specs);
    }
    let mut args: Vec<NodeValue> = Vec::new();
    args.push(NodeValue::Str(name.clone()));
    proof {
        assert(values_view(args@) =~= seq![ValueV::Str(name@)]);
    }
    make_node("class", args, props, children)
}

fn game_node(name: &String, g: &Game) -> (r: Node)
    ensures
        r@ == game_node_v(name@, g@),
{
    let mut props: Vec<(String, NodeValue)> = Vec::new();
    props.push(str_prop("path", &g.path));
    proof {
        assert(props_view(props@) =~= seq![("path"@, ValueV::Str(g@.path))]);
    }
    let mut children: Vec<Node> = Vec::new();
    let mut i: usize = 0;
    while i < g.classes.len()
        invariant
            i <= g.classes@.len(),
            nodes_view(children@) == g@.classes.take(i as int).map_values(
                |e: (Seq<char>, ClassV)| class_node_v(e.0, e.1),
            ),
        decreases g.classes@.len() - i,
    {
        let ghost prev = children@;
        children.push(class_node(g.classes.key_at(i), g.classes.value_at(i)));
        proof {
            lemma_map_push(prev, children@.last(), |n: Node| n@);
            lemma_take_push(g@.classes, i as int);
            lemma_map_push(g@.classes.take(i as int), g@.classes[i as int], |e: (Seq<char>, ClassV)| class_node_v(e.0, e.1));
            assert(nodes_view(children@) =~= g@.classes.take(i + 1).map_values(|e: (Seq<char>, ClassV)| class_node_v(e.0, e.1)));
        }
        i += 1;
    }
    proof {
        assert(g@.classes.take(g@.classes.len() as int) =~= g@.classes);
    }
    let mut args: Vec<NodeValue> = Vec::new();
    args.push(NodeValue::Str(name.clone()));
    proof {
        assert(values_view(args@) =~= seq![ValueV::Str(name@)]);
    }
    make_node("game", args, props, children)
}

/// The config.kdl document for a tree.
pub fn build_doc(tree: &ConfigTree) -> (r: Document)
    ensures
        r@ == doc_of_tree(tree@),
{
    let s = &tree.settings;
    let mut sp: Vec<(String, NodeValue)> = Vec::new();
    sp.push(int_prop("defaultDelay", s.default_delay));
    sp.push(bool_prop("autoDetectGame", s.auto_detect_game));
    sp.push(bool_prop("onlyInGame", s.only_in_game));
    sp.push(bool_prop("allowBackground", s.allow_background));
    sp.push(bool_prop("minimizeToTray", s.minimize_to_tray));
    sp.push(bool_prop("darkMode", s.dark_mode));
    sp.push(str_prop("toggleKey", &s.toggle_key));
    sp.push(int_prop("pixelCheckRate", s.pixel_check_rate));
    sp.push(bool_prop("showTerminal", s.show_terminal));
    sp.push(str_prop("overlayPosition", &s.overlay_position));
    proof {
        assert(props_view(sp@) =~= doc_of_tree(tree@)[0].props);
    }
    let settings_node = make_node("settings", Vec::new(), sp, Vec::new());
    let mut ap: Vec<(String, NodeValue)> = Vec::new();
    ap.push(str_prop("game", &tree.active_game));
    ap.push(str_prop("class", &tree.active_class));
    ap.push(str_prop("spec", &tree.active_spec));
    proof {
        assert(props_view(ap@) =~= doc_of_tree(tree@)[1].props);
    }
    let active_node = make_node("active", Vec::new(), ap, Vec::new());
    let mut nodes: Vec<Node> = Vec::new();
    nodes.push(settings_node);
    nodes.push(active_node);
    proof {
        assert(values_view(Seq::<NodeValue>::empty()) =~= Seq::empty());
        assert(nodes_view(Seq::<Node>::empty()) =~= Seq::empty());
        assert(nodes_view(nodes@) =~= doc_of_tree(tree@).take(2));
    }
    let mut i: usize = 0;
    while i < tree.games.len()
        invariant
            i <= tree.games@.len(),
            nodes_view(nodes@) == doc_of_tree(tree@).take(2) + tree@.games.take(i as int).map_values(
                |e: (Seq<char>, GameV)| game_node_v(e.0, e.1),
            ),
        decreases tree.games@.len() - i,
    {
        let ghost prev = nodes@;
        nodes.push(game_node(tree.games.key_at(i), tree.games.value_at(i)));
        proof {
            lemma_map_push(prev, nodes@.last(), |n: Node| n@);
            lemma_take_push(tree@.games, i as int);
            lemma_map_push(tree@.games.take(i as int), tree@.games[i as int], |e: (Seq<char>, GameV)| game_node_v(e.0, e.1));
            assert(nodes_view(nodes@) =~= doc_of_tree(tree@).take(2) + tree@.games.take(i + 1).map_values(|e: (Seq<char>, GameV)| game_node_v(e.0, e.1)));
        }
        i += 1;
    }
    let r = Document { nodes };
    proof {
        assert(tree@.games.take(tree@.games.len() as int) =~= tree@.games);
        assert(r@ =~= doc_of_tree(tree@));
    }
    r
}

} // verus!
