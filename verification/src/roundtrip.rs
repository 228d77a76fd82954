//! What a node written by the config writer reads back as: the readers
//! undo the writers.

use vstd::prelude::*;
use crate::config::{
    AnchorV, BuffTimerV, ClassV, ConfigTreeV, DetectV, GameV, MacroV, PixelTriggerV, PixelV, Resolution, SpecV,
    SettingsV, default_settings_v, default_tree_v, empty_spec_v, normalized_position, res_spec, res_text,
    validated_buff, validated_macro, validated_trigger, validated_tree,
};
use crate::config_emit::{
    doc_of_tree,
    anchor_nodes_v, buff_node_v, class_node_v, detect_nodes_v, game_node_v, leaf_v, macro_node_v, node_v,
    pixel_node_v, pixel_nodes_v, proc_node_v, res_prop_v, spec_node_v,
};
use crate::config_parse::{
    doc_step, loaded_tree, parsed_tree, settings_of_node,
    anchor_of_node, buff_of_node, buff_parts, class_of_node, classes_of, detect_of_node, game_of_node,
    lowered_first_args, macro_of_node, node_name_arg, pixel_of_node, pixels_of, proc_parts, spec_items, specs_of,
    trigger_of_node,
};
use crate::namemap::{key_lt, sorted_keys};
use crate::document::{NodeV, ValueV, lemma_no_prop, lemma_prop_at, named_children, prop_str_spec};
use crate::text::{ascii_lower_seq, eq_ignore_ascii_case_spec, lowercase};

verus! {

/// Keys of different lengths never match, whatever their case.
proof fn lemma_len_differs(a: Seq<char>, b: Seq<char>)
    requires
        a.len() != b.len(),
    ensures
        !eq_ignore_ascii_case_spec(a, b),
{
    assert(ascii_lower_seq(a).len() == a.len());
    assert(ascii_lower_seq(b).len() == b.len());
}

/// A key matches itself.
proof fn lemma_same_key(a: Seq<char>)
    ensures
        eq_ignore_ascii_case_spec(a, a),
{
}

/// A pixel written out reads back as the same pixel.
pub proof fn lemma_pixel_round_trip(p: PixelV)
    ensures
        pixel_of_node(pixel_node_v(p)) == p,
{
    reveal_strlit("x");
    reveal_strlit("y");
    reveal_strlit("color");
    reveal_strlit("variation");
    let n = pixel_node_v(p);
    assert(n.props[0].0 == "x"@);
    assert(n.props[1].0 == "y"@);
    assert(n.props[2].0 == "color"@);
    assert(n.props[3].0 == "variation"@);
    lemma_same_key("x"@);
    lemma_prop_at(n, "x"@, 0);
    assert(ascii_lower_seq("x"@)[0] != ascii_lower_seq("y"@)[0]);
    lemma_same_key("y"@);
    lemma_prop_at(n, "y"@, 1);
    lemma_len_differs("x"@, "color"@);
    lemma_len_differs("y"@, "color"@);
    lemma_same_key("color"@);
    lemma_prop_at(n, "color"@, 2);
    lemma_len_differs("x"@, "variation"@);
    lemma_len_differs("y"@, "variation"@);
    lemma_len_differs("color"@, "variation"@);
    lemma_same_key("variation"@);
    lemma_prop_at(n, "variation"@, 3);
}

/// Key names that are already lowercase stay as they are.
pub open spec fn all_lowercase(ks: Seq<Seq<char>>) -> bool {
    forall|i: int| 0 <= i < ks.len() ==> lowercase(#[trigger] ks[i]) == ks[i]
}

/// The key children of a written macro read back as its keys, when those
/// are lowercase.
proof fn lemma_key_children(ks: Seq<Seq<char>>)
    requires
        all_lowercase(ks),
    ensures
        lowered_first_args(named_children(ks.map_values(|k: Seq<char>| leaf_v("key"@, k)), "key"@)) == ks,
    decreases ks.len(),
{
    let cs = ks.map_values(|k: Seq<char>| leaf_v("key"@, k));
    if ks.len() > 0 {
        let init = ks.drop_last();
        assert(init.map_values(|k: Seq<char>| leaf_v("key"@, k)) =~= cs.drop_last());
        assert forall|i: int| 0 <= i < init.len() implies lowercase(#[trigger] init[i]) == init[i] by {
            assert(init[i] == ks[i]);
        }
        lemma_key_children(init);
        assert(cs.last() == leaf_v("key"@, ks.last()));
        assert(named_children(cs, "key"@) == named_children(cs.drop_last(), "key"@).push(cs.last()));
        let nc = named_children(cs, "key"@);
        assert(nc.drop_last() =~= named_children(cs.drop_last(), "key"@));
        assert(lowercase(ks.last()) == ks.last());
        assert(ks =~= init.push(ks.last()));
    } else {
        assert(cs.len() == 0);
    }
}

/// A macro in the form the reader produces (lowercase hotkey and keys, a
/// mode named, hold mode off) written out reads back as the same macro,
/// whatever the default delay.
pub proof fn lemma_macro_round_trip(m: MacroV, default_delay: i32)
    requires
        lowercase(m.hotkey) == m.hotkey,
        all_lowercase(m.keys),
        m.mode.len() > 0,
        !m.hold_mode,
    ensures
        macro_of_node(macro_node_v(m), default_delay) == m,
{
    reveal_strlit("name");
    reveal_strlit("hotkey");
    reveal_strlit("delay");
    reveal_strlit("mode");
    reveal_strlit("interKeyDelay");
    reveal_strlit("enabled");
    reveal_strlit("maxHoldDuration");
    reveal_strlit("background");
    reveal_strlit("holdMode");
    let n = macro_node_v(m);
    let keys: Seq<Seq<char>> = seq![
        "name"@,
        "hotkey"@,
        "delay"@,
        "mode"@,
        "interKeyDelay"@,
        "enabled"@,
        "maxHoldDuration"@,
        "background"@,
    ];
    assert forall|i: int| 0 <= i < 8 implies n.props[i].0 == #[trigger] keys[i] by {}
    // Same-length key pairs differ in their first letter.
    assert(ascii_lower_seq("name"@)[0] != ascii_lower_seq("mode"@)[0]);
    assert(!eq_ignore_ascii_case_spec("name"@, "mode"@));
    assert forall|i: int, j: int| 0 <= j < i < 8 implies !eq_ignore_ascii_case_spec(
        #[trigger] keys[j],
        #[trigger] keys[i],
    ) by {
        if keys[j].len() != keys[i].len() {
            lemma_len_differs(keys[j], keys[i]);
        }
    }
    assert forall|i: int| 0 <= i < 8 implies eq_ignore_ascii_case_spec(#[trigger] keys[i], keys[i]) by {}
    lemma_prop_at(n, "name"@, 0);
    lemma_prop_at(n, "hotkey"@, 1);
    lemma_prop_at(n, "delay"@, 2);
    lemma_prop_at(n, "mode"@, 3);
    lemma_prop_at(n, "interKeyDelay"@, 4);
    lemma_prop_at(n, "enabled"@, 5);
    lemma_prop_at(n, "maxHoldDuration"@, 6);
    lemma_prop_at(n, "background"@, 7);
    // No property is called holdMode, so hold mode reads as off.
    assert forall|j: int| 0 <= j < n.props.len() implies !eq_ignore_ascii_case_spec(
        #[trigger] n.props[j].0,
        "holdMode"@,
    ) by {
        assert(n.props[j].0 == keys[j]);
        if keys[j].len() != 8 {
            lemma_len_differs(keys[j], "holdMode"@);
        } else {
            assert(ascii_lower_seq(keys[j])[0] != ascii_lower_seq("holdMode"@)[0]);
        }
    }
    crate::document::lemma_no_prop(n, "holdMode"@);
    lemma_key_children(m.keys);
}


// ── Children ────────────────────────────────────────────────────────────

/// Children that all carry a name are all found under it.
pub proof fn lemma_named_all(cs: Seq<NodeV>, name: Seq<char>)
    requires
        forall|i: int| 0 <= i < cs.len() ==> (#[trigger] cs[i]).name == name,
    ensures
        named_children(cs, name) == cs,
    decreases cs.len(),
{
    if cs.len() > 0 {
        lemma_named_all(cs.drop_last(), name);
        assert(cs.drop_last().push(cs.last()) =~= cs);
    }
}

/// Children none of which carries a name give nothing under it.
pub proof fn lemma_named_none(cs: Seq<NodeV>, name: Seq<char>)
    requires
        forall|i: int| 0 <= i < cs.len() ==> (#[trigger] cs[i]).name != name,
    ensures
        named_children(cs, name) == Seq::<NodeV>::empty(),
    decreases cs.len(),
{
    if cs.len() > 0 {
        lemma_named_none(cs.drop_last(), name);
    }
}

/// Pixels written out read back as the same pixels.
pub proof fn lemma_pixels_round_trip(ps: Seq<PixelV>)
    ensures
        pixels_of(pixel_nodes_v(ps)) == ps,
        forall|i: int| 0 <= i < pixel_nodes_v(ps).len() ==> (#[trigger] pixel_nodes_v(ps)[i]).name == "pixel"@,
{
    assert forall|i: int| 0 <= i < ps.len() implies #[trigger] pixels_of(pixel_nodes_v(ps))[i] == ps[i] by {
        lemma_pixel_round_trip(ps[i]);
    }
    assert(pixels_of(pixel_nodes_v(ps)) =~= ps);
}

/// An anchor or blocker with pixels, written out, reads back as itself.
pub proof fn lemma_anchor_round_trip(name: Seq<char>, a: AnchorV)
    requires
        a.pixels.len() > 0,
    ensures
        anchor_nodes_v(name, Some(a)).len() == 1,
        anchor_of_node(anchor_nodes_v(name, Some(a))[0]) == a,
        anchor_nodes_v(name, Some(a))[0].name == name,
{
    reveal_strlit("matchMode");
    reveal_strlit("pixel");
    let n = anchor_nodes_v(name, Some(a))[0];
    lemma_prop_at(n, "matchMode"@, 0);
    lemma_pixels_round_trip(a.pixels);
    lemma_named_all(n.children, "pixel"@);
}

/// A trigger's children after its anchor and blocker are pixels: they add
/// to the pixels and leave the anchor and blocker as they were.
proof fn lemma_proc_parts_pixels(a: Seq<NodeV>, ps: Seq<PixelV>)
    ensures
        proc_parts(a + pixel_nodes_v(ps)) == (proc_parts(a).0 + ps, proc_parts(a).1, proc_parts(a).2),
    decreases ps.len(),
{
    reveal_strlit("pixel");
    if ps.len() == 0 {
        assert(a + pixel_nodes_v(ps) =~= a);
        assert(proc_parts(a).0 + ps =~= proc_parts(a).0);
    } else {
        let init = ps.drop_last();
        lemma_proc_parts_pixels(a, init);
        let cs = a + pixel_nodes_v(ps);
        assert(cs.drop_last() =~= a + pixel_nodes_v(init));
        assert(cs.last() == pixel_node_v(ps.last()));
        lemma_pixel_round_trip(ps.last());
        assert(proc_parts(a).0 + ps =~= (proc_parts(a).0 + init).push(ps.last()));
    }
}

/// What the trigger reader needs of a trigger to read it back unchanged.
pub open spec fn trigger_normal(p: PixelTriggerV) -> bool {
    &&& lowercase(p.action_key) == p.action_key
    &&& lowercase(p.macro_hotkey) == p.macro_hotkey
    &&& p.last_fired == 0
    &&& (p.anchor matches Some(a) ==> a.pixels.len() > 0)
    &&& (p.blocker matches Some(b) ==> b.pixels.len() > 0)
}

/// The anchor and blocker nodes of a trigger read back as its anchor and
/// blocker.
proof fn lemma_anchor_blocker(a: Option<AnchorV>, b: Option<AnchorV>)
    requires
        a matches Some(x) ==> x.pixels.len() > 0,
        b matches Some(x) ==> x.pixels.len() > 0,
    ensures
        proc_parts(anchor_nodes_v("anchor"@, a) + anchor_nodes_v("blocker"@, b)) == (Seq::<PixelV>::empty(), a, b),
{
    reveal_strlit("anchor");
    reveal_strlit("blocker");
    reveal_strlit("pixel");
    let an = anchor_nodes_v("anchor"@, a);
    let bn = anchor_nodes_v("blocker"@, b);
    let cs = an + bn;
    let none_parts = (Seq::<PixelV>::empty(), None::<AnchorV>, None::<AnchorV>);
    assert(proc_parts(Seq::<NodeV>::empty()) == none_parts);
    // The anchor part alone.
    match a {
        Some(x) => {
            lemma_anchor_round_trip("anchor"@, x);
            assert(an.drop_last() =~= Seq::<NodeV>::empty());
            assert(an.last().name == "anchor"@);
            assert(proc_parts(an) == (Seq::<PixelV>::empty(), a, None::<AnchorV>));
        },
        None => {
            assert(an =~= Seq::<NodeV>::empty());
            assert(proc_parts(an) == (Seq::<PixelV>::empty(), a, None::<AnchorV>));
        },
    }
    match b {
        Some(y) => {
            lemma_anchor_round_trip("blocker"@, y);
            assert(cs.drop_last() =~= an);
            assert(cs.last().name == "blocker"@);
            assert(proc_parts(cs) == (Seq::<PixelV>::empty(), a, b));
        },
        None => {
            assert(cs =~= an);
        },
    }
}

/// The `captureRes` property written for a resolution reads back as it.
proof fn lemma_res_prop(n: NodeV, base_len: int, r: Option<Resolution>)
    requires
        0 <= base_len,
        n.props.len() == base_len + res_prop_v(r).len(),
        forall|j: int| 0 <= j < base_len ==> !eq_ignore_ascii_case_spec(#[trigger] n.props[j].0, "captureRes"@),
        forall|j: int| 0 <= j < res_prop_v(r).len() ==> n.props[base_len + j] == #[trigger] res_prop_v(r)[j],
    ensures
        res_spec(prop_str_spec(n, "captureRes"@, ""@)) == r,
{
    reveal_strlit("captureRes");
    match r {
        Some(x) => {
            crate::config::lemma_res_round_trip(x);
            crate::text::lemma_int_text_round_trip(x.w);
            assert(res_text(r).len() > 0);
            assert(n.props[base_len] == res_prop_v(r)[0]);
            lemma_prop_at(n, "captureRes"@, base_len);
        },
        None => {
            reveal_strlit("");
            crate::config::lemma_no_res_round_trip();
            assert(res_text(r).len() == 0);
            lemma_no_prop(n, "captureRes"@);
            assert(res_text(None) =~= ""@);
        },
    }
}

/// A trigger in the form the reader produces, written out, reads back as
/// itself.
pub proof fn lemma_trigger_round_trip(p: PixelTriggerV)
    requires
        trigger_normal(p),
    ensures
        trigger_of_node(proc_node_v(p)) == p,
{
    reveal(trigger_of_node);
    reveal_strlit("name");
    reveal_strlit("actionKey");
    reveal_strlit("matchMode");
    reveal_strlit("triggerMode");
    reveal_strlit("inverse");
    reveal_strlit("enabled");
    reveal_strlit("cooldown");
    reveal_strlit("macroHotkey");
    reveal_strlit("captureRes");
    reveal_strlit("key");
    let n = proc_node_v(p);
    let keys: Seq<Seq<char>> = seq![
        "name"@,
        "actionKey"@,
        "matchMode"@,
        "triggerMode"@,
        "inverse"@,
        "enabled"@,
        "cooldown"@,
        "macroHotkey"@,
    ];
    assert forall|i: int| 0 <= i < 8 implies n.props[i].0 == #[trigger] keys[i] by {}
    assert(ascii_lower_seq("actionKey"@)[0] != ascii_lower_seq("matchMode"@)[0]);
    assert(ascii_lower_seq("triggerMode"@)[0] != ascii_lower_seq("macroHotkey"@)[0]);
    assert(ascii_lower_seq("inverse"@)[0] != ascii_lower_seq("enabled"@)[0]);
    assert forall|i: int, j: int| 0 <= j < i < 8 implies !eq_ignore_ascii_case_spec(
        #[trigger] keys[j],
        #[trigger] keys[i],
    ) by {
        if keys[j].len() != keys[i].len() {
            lemma_len_differs(keys[j], keys[i]);
        }
    }
    lemma_prop_at(n, "name"@, 0);
    lemma_prop_at(n, "actionKey"@, 1);
    lemma_prop_at(n, "matchMode"@, 2);
    lemma_prop_at(n, "triggerMode"@, 3);
    lemma_prop_at(n, "inverse"@, 4);
    lemma_prop_at(n, "enabled"@, 5);
    lemma_prop_at(n, "cooldown"@, 6);
    lemma_prop_at(n, "macroHotkey"@, 7);
    // No property is called `key`.
    assert forall|j: int| 0 <= j < n.props.len() implies !eq_ignore_ascii_case_spec(
        #[trigger] n.props[j].0,
        "key"@,
    ) by {
        if j < 8 {
            assert(n.props[j].0 == keys[j]);
            lemma_len_differs(keys[j], "key"@);
        } else {
            assert(n.props[j] == res_prop_v(p.capture_res)[j - 8]);
            lemma_len_differs("captureRes"@, "key"@);
        }
    }
    lemma_no_prop(n, "key"@);
    assert forall|j: int| 0 <= j < 8 implies !eq_ignore_ascii_case_spec(#[trigger] n.props[j].0, "captureRes"@) by {
        assert(n.props[j].0 == keys[j]);
        lemma_len_differs(keys[j], "captureRes"@);
    }
    lemma_res_prop(n, 8, p.capture_res);
    lemma_anchor_blocker(p.anchor, p.blocker);
    let ab = anchor_nodes_v("anchor"@, p.anchor) + anchor_nodes_v("blocker"@, p.blocker);
    lemma_proc_parts_pixels(ab, p.pixels);
    assert(n.children == ab + pixel_nodes_v(p.pixels));
    assert(Seq::<PixelV>::empty() + p.pixels =~= p.pixels);
    reveal_strlit("");
    if p.action_key.len() == 0 {
        assert(p.action_key =~= ""@);
    }
    let r = trigger_of_node(n);
    assert(r.name == p.name);
    assert(r.action_key == p.action_key);
    assert(r.pixels == p.pixels);
    assert(r.anchor == p.anchor);
    assert(r.blocker == p.blocker);
    assert(r.capture_res == p.capture_res);
    assert(r.cooldown == p.cooldown);
}

// ── Buff timers ─────────────────────────────────────────────────────────

/// What the buff reader needs of a buff to read it back unchanged.
pub open spec fn buff_normal(b: BuffTimerV) -> bool {
    &&& all_lowercase(b.watch_keys)
    &&& lowercase(b.action_key) == b.action_key
}

/// A buff's watched-key children read back as its keys; the pixels after
/// them as its pixels.
proof fn lemma_buff_parts(ks: Seq<Seq<char>>, ps: Seq<PixelV>)
    requires
        all_lowercase(ks),
    ensures
        buff_parts(ks.map_values(|k: Seq<char>| leaf_v("watchKey"@, k)) + pixel_nodes_v(ps)) == (ks, ps),
    decreases ks.len() + ps.len(),
{
    reveal_strlit("watchKey");
    reveal_strlit("pixel");
    let w = ks.map_values(|k: Seq<char>| leaf_v("watchKey"@, k));
    let cs = w + pixel_nodes_v(ps);
    if ps.len() > 0 {
        lemma_buff_parts(ks, ps.drop_last());
        let prev = w + pixel_nodes_v(ps.drop_last());
        assert(cs.drop_last() =~= prev);
        assert(cs.last() == pixel_node_v(ps.last()));
        assert(cs.last().name == "pixel"@);
        lemma_pixel_round_trip(ps.last());
        assert(buff_parts(cs) == (buff_parts(prev).0, buff_parts(prev).1.push(pixel_of_node(cs.last()))));
        assert(ps.drop_last().push(ps.last()) =~= ps);
    } else if ks.len() > 0 {
        let init = ks.drop_last();
        assert forall|i: int| 0 <= i < init.len() implies lowercase(#[trigger] init[i]) == init[i] by {
            assert(init[i] == ks[i]);
        }
        lemma_buff_parts(init, ps);
        let prev = init.map_values(|k: Seq<char>| leaf_v("watchKey"@, k)) + pixel_nodes_v(ps);
        assert(cs =~= w);
        assert(prev =~= w.drop_last());
        assert(w.last() == leaf_v("watchKey"@, ks.last()));
        assert(w.last().name == "watchKey"@);
        assert(crate::config_parse::first_arg_str(w.last()) == Some(ks.last()));
        assert(lowercase(ks.last()) == ks.last());
        assert(buff_parts(w) == (buff_parts(prev).0.push(lowercase(ks.last())), buff_parts(prev).1));
        assert(init.push(ks.last()) =~= ks);
    } else {
        assert(cs =~= Seq::<NodeV>::empty());
    }
}

/// A buff in the form the reader produces, written out, reads back as
/// itself.
pub proof fn lemma_buff_round_trip(b: BuffTimerV)
    requires
        buff_normal(b),
    ensures
        buff_of_node(buff_node_v(b)) == b,
{
    reveal(buff_of_node);
    reveal_strlit("name");
    reveal_strlit("triggerType");
    reveal_strlit("duration");
    reveal_strlit("actionKey");
    reveal_strlit("onRefresh");
    reveal_strlit("extendMs");
    reveal_strlit("enabled");
    reveal_strlit("soundOnExpiry");
    reveal_strlit("triggerMatchMode");
    reveal_strlit("captureRes");
    let n = buff_node_v(b);
    let keys: Seq<Seq<char>> = seq![
        "name"@,
        "triggerType"@,
        "duration"@,
        "actionKey"@,
        "onRefresh"@,
        "extendMs"@,
        "enabled"@,
        "soundOnExpiry"@,
        "triggerMatchMode"@,
    ];
    assert forall|i: int| 0 <= i < 9 implies n.props[i].0 == #[trigger] keys[i] by {}
    assert(ascii_lower_seq("duration"@)[0] != ascii_lower_seq("extendMs"@)[0]);
    assert(ascii_lower_seq("actionKey"@)[0] != ascii_lower_seq("onRefresh"@)[0]);
    assert forall|i: int, j: int| 0 <= j < i < 9 implies !eq_ignore_ascii_case_spec(
        #[trigger] keys[j],
        #[trigger] keys[i],
    ) by {
        if keys[j].len() != keys[i].len() {
            lemma_len_differs(keys[j], keys[i]);
        }
    }
    lemma_prop_at(n, "name"@, 0);
    lemma_prop_at(n, "triggerType"@, 1);
    lemma_prop_at(n, "duration"@, 2);
    lemma_prop_at(n, "actionKey"@, 3);
    lemma_prop_at(n, "onRefresh"@, 4);
    lemma_prop_at(n, "extendMs"@, 5);
    lemma_prop_at(n, "enabled"@, 6);
    lemma_prop_at(n, "soundOnExpiry"@, 7);
    lemma_prop_at(n, "triggerMatchMode"@, 8);
    assert forall|j: int| 0 <= j < 9 implies !eq_ignore_ascii_case_spec(#[trigger] n.props[j].0, "captureRes"@) by {
        assert(n.props[j].0 == keys[j]);
        lemma_len_differs(keys[j], "captureRes"@);
    }
    lemma_res_prop(n, 9, b.capture_res);
    lemma_buff_parts(b.watch_keys, b.trigger_pixels);
}

// ── Detectors ───────────────────────────────────────────────────────────

/// A detector with pixels, written out, reads back as itself.
pub proof fn lemma_detect_round_trip(d: DetectV)
    requires
        d.pixels.len() > 0,
    ensures
        detect_nodes_v(Some(d)).len() == 1,
        detect_of_node(detect_nodes_v(Some(d))[0]) == d,
{
    reveal_strlit("matchMode");
    reveal_strlit("captureRes");
    reveal_strlit("pixel");
    let n = detect_nodes_v(Some(d))[0];
    lemma_prop_at(n, "matchMode"@, 0);
    lemma_len_differs("matchMode"@, "captureRes"@);
    lemma_res_prop(n, 1, d.capture_res);
    lemma_pixels_round_trip(d.pixels);
    lemma_named_all(n.children, "pixel"@);
}


// ── Specs ───────────────────────────────────────────────────────────────

/// What the macro reader needs of a macro to read it back unchanged.
pub open spec fn macro_normal(m: MacroV) -> bool {
    &&& lowercase(m.hotkey) == m.hotkey
    &&& all_lowercase(m.keys)
    &&& m.mode.len() > 0
    &&& !m.hold_mode
}

/// What the spec reader needs of a spec to read it back unchanged.
pub open spec fn spec_normal(s: SpecV) -> bool {
    &&& forall|i: int| 0 <= i < s.macros.len() ==> macro_normal(#[trigger] s.macros[i])
    &&& forall|i: int| 0 <= i < s.pixel_triggers.len() ==> trigger_normal(#[trigger] s.pixel_triggers[i])
    &&& forall|i: int| 0 <= i < s.buff_timers.len() ==> buff_normal(#[trigger] s.buff_timers[i])
    &&& (s.detect matches Some(d) ==> d.pixels.len() > 0)
}

/// One more child read by the spec reader: a trigger node adds a trigger.
proof fn lemma_items_step_proc(cs: Seq<NodeV>, d: i32)
    requires
        cs.len() > 0,
        cs.last().name == "proc"@,
    ensures
        spec_items(cs, d) == (SpecV {
            pixel_triggers: spec_items(cs.drop_last(), d).pixel_triggers.push(trigger_of_node(cs.last())),
            ..spec_items(cs.drop_last(), d)
        }),
{
    reveal_strlit("macro");
    reveal_strlit("proc");
    assert("proc"@.len() != "macro"@.len());
    assert(cs.last().name != "macro"@);
}

/// One more child read by the spec reader: a buff node adds a buff.
proof fn lemma_items_step_buff(cs: Seq<NodeV>, d: i32)
    requires
        cs.len() > 0,
        cs.last().name == "buff"@,
    ensures
        spec_items(cs, d) == (SpecV {
            buff_timers: spec_items(cs.drop_last(), d).buff_timers.push(buff_of_node(cs.last())),
            ..spec_items(cs.drop_last(), d)
        }),
{
    reveal_strlit("macro");
    reveal_strlit("proc");
    reveal_strlit("buff");
    assert("buff"@[0] != "proc"@[0]);
}

#[verifier::spinoff_prover]
#[verifier::rlimit(80)]
proof fn lemma_items_macros(cs: Seq<NodeV>, ms: Seq<MacroV>, d: i32)
    requires
        forall|i: int| 0 <= i < ms.len() ==> macro_normal(#[trigger] ms[i]),
    ensures
        spec_items(cs + ms.map_values(|m: MacroV| macro_node_v(m)), d) == (SpecV {
            macros: spec_items(cs, d).macros + ms,
            ..spec_items(cs, d)
        }),
    decreases ms.len(),
{
    reveal_strlit("macro");
    let full = cs + ms.map_values(|m: MacroV| macro_node_v(m));
    if ms.len() == 0 {
        assert(full =~= cs);
        assert(spec_items(cs, d).macros + ms =~= spec_items(cs, d).macros);
    } else {
        let init = ms.drop_last();
        assert forall|i: int| 0 <= i < init.len() implies macro_normal(#[trigger] init[i]) by {
            assert(init[i] == ms[i]);
        }
        lemma_items_macros(cs, init, d);
        assert(full.drop_last() =~= cs + init.map_values(|m: MacroV| macro_node_v(m)));
        assert(full.last() == macro_node_v(ms.last()));
        assert(macro_normal(ms[ms.len() - 1]));
        lemma_macro_round_trip(ms.last(), d);
        assert(spec_items(cs, d).macros + ms =~= (spec_items(cs, d).macros + init).push(ms.last()));
    }
}

#[verifier::spinoff_prover]
#[verifier::rlimit(80)]
proof fn lemma_items_triggers(cs: Seq<NodeV>, ps: Seq<PixelTriggerV>, d: i32)
    requires
        forall|i: int| 0 <= i < ps.len() ==> trigger_normal(#[trigger] ps[i]),
    ensures
        spec_items(cs + ps.map_values(|p: PixelTriggerV| proc_node_v(p)), d) == (SpecV {
            pixel_triggers: spec_items(cs, d).pixel_triggers + ps,
            ..spec_items(cs, d)
        }),
    decreases ps.len(),
{
    reveal_strlit("macro");
    reveal_strlit("proc");
    let full = cs + ps.map_values(|p: PixelTriggerV| proc_node_v(p));
    if ps.len() == 0 {
        assert(full =~= cs);
        assert(spec_items(cs, d).pixel_triggers + ps =~= spec_items(cs, d).pixel_triggers);
    } else {
        let init = ps.drop_last();
        assert forall|i: int| 0 <= i < init.len() implies trigger_normal(#[trigger] init[i]) by {
            assert(init[i] == ps[i]);
        }
        lemma_items_triggers(cs, init, d);
        assert(full.drop_last() =~= cs + init.map_values(|p: PixelTriggerV| proc_node_v(p)));
        assert(full.last() == proc_node_v(ps.last()));
        assert(trigger_normal(ps[ps.len() - 1]));
        lemma_trigger_round_trip(ps.last());
        lemma_items_step_proc(full, d);
        assert(spec_items(cs, d).pixel_triggers + ps =~= (spec_items(cs, d).pixel_triggers + init).push(ps.last()));
    }
}

#[verifier::spinoff_prover]
#[verifier::rlimit(80)]
proof fn lemma_items_buffs(cs: Seq<NodeV>, bs: Seq<BuffTimerV>, d: i32)
    requires
        forall|i: int| 0 <= i < bs.len() ==> buff_normal(#[trigger] bs[i]),
    ensures
        spec_items(cs + bs.map_values(|b: BuffTimerV| buff_node_v(b)), d) == (SpecV {
            buff_timers: spec_items(cs, d).buff_timers + bs,
            ..spec_items(cs, d)
        }),
    decreases bs.len(),
{
    reveal_strlit("macro");
    reveal_strlit("proc");
    reveal_strlit("buff");
    let full = cs + bs.map_values(|b: BuffTimerV| buff_node_v(b));
    if bs.len() == 0 {
        assert(full =~= cs);
        assert(spec_items(cs, d).buff_timers + bs =~= spec_items(cs, d).buff_timers);
    } else {
        let init = bs.drop_last();
        assert forall|i: int| 0 <= i < init.len() implies buff_normal(#[trigger] init[i]) by {
            assert(init[i] == bs[i]);
        }
        lemma_items_buffs(cs, init, d);
        assert(full.drop_last() =~= cs + init.map_values(|b: BuffTimerV| buff_node_v(b)));
        assert(full.last() == buff_node_v(bs.last()));
        assert(buff_normal(bs[bs.len() - 1]));
        lemma_buff_round_trip(bs.last());
        lemma_items_step_buff(full, d);
        assert(spec_items(cs, d).buff_timers + bs =~= (spec_items(cs, d).buff_timers + init).push(bs.last()));
    }
}

/// A spec's children, written out, read back as the spec.
#[verifier::spinoff_prover]
#[verifier::rlimit(80)]
pub proof fn lemma_spec_round_trip(name: Seq<char>, s: SpecV, d: i32)
    requires
        spec_normal(s),
    ensures
        spec_items(spec_node_v(name, s).children, d) == s,
        node_name_arg(spec_node_v(name, s)) == name,
        spec_node_v(name, s).name == "spec"@,
{
    reveal_strlit("detect");
    reveal_strlit("macro");
    reveal_strlit("proc");
    reveal_strlit("buff");
    let dn = detect_nodes_v(s.detect);
    let mn = s.macros.map_values(|m: MacroV| macro_node_v(m));
    let pn = s.pixel_triggers.map_values(|p: PixelTriggerV| proc_node_v(p));
    let bn = s.buff_timers.map_values(|b: BuffTimerV| buff_node_v(b));
    assert(spec_node_v(name, s).children =~= dn + mn + pn + bn);
    // The detector part alone.
    match s.detect {
        Some(det) => {
            lemma_detect_round_trip(det);
            assert(dn.drop_last() =~= Seq::<NodeV>::empty());
            assert(dn.last() == dn[0]);
            assert(dn.last().name == "detect"@);
            assert(spec_items(Seq::<NodeV>::empty(), d) == empty_spec_v());
            assert(spec_items(dn, d) == SpecV { detect: s.detect, ..empty_spec_v() });
        },
        None => {
            assert(dn =~= Seq::<NodeV>::empty());
            assert(spec_items(dn, d) == SpecV { detect: s.detect, ..empty_spec_v() });
        },
    }
    lemma_items_macros(dn, s.macros, d);
    lemma_items_triggers(dn + mn, s.pixel_triggers, d);
    lemma_items_buffs(dn + mn + pn, s.buff_timers, d);
    assert(Seq::<MacroV>::empty() + s.macros =~= s.macros);
    assert(Seq::<PixelTriggerV>::empty() + s.pixel_triggers =~= s.pixel_triggers);
    assert(Seq::<BuffTimerV>::empty() + s.buff_timers =~= s.buff_timers);
}


// ── Classes and games ───────────────────────────────────────────────────

/// Name-keyed entries as the readers build them: sorted, with non-empty
/// names.
pub open spec fn entries_normal<V>(es: Seq<(Seq<char>, V)>) -> bool {
    &&& sorted_keys(es)
    &&& forall|i: int| 0 <= i < es.len() ==> (#[trigger] es[i]).0.len() > 0
}

/// Keys of the first entries of a sorted list are below the last one.
proof fn lemma_sorted_prefix<V>(es: Seq<(Seq<char>, V)>)
    requires
        entries_normal(es),
        es.len() > 0,
    ensures
        entries_normal(es.drop_last()),
        forall|i: int| 0 <= i < es.drop_last().len() ==> key_lt(#[trigger] es.drop_last()[i].0, es.last().0),
{
    let init = es.drop_last();
    assert forall|i: int| 0 <= i < init.len() implies key_lt(#[trigger] init[i].0, es.last().0) by {
        assert(init[i] == es[i]);
        assert(key_lt(es[i].0, es[es.len() - 1].0));
    }
    assert forall|a: int, b: int| 0 <= a < b < init.len() implies key_lt(#[trigger] init[a].0, #[trigger] init[b].0) by {
        assert(init[a] == es[a]);
        assert(init[b] == es[b]);
    }
    assert forall|i: int| 0 <= i < init.len() implies (#[trigger] init[i]).0.len() > 0 by {
        assert(init[i] == es[i]);
    }
}

pub open spec fn specs_normal(es: Seq<(Seq<char>, SpecV)>) -> bool {
    &&& entries_normal(es)
    &&& forall|i: int| 0 <= i < es.len() ==> spec_normal(#[trigger] es[i].1)
}

proof fn lemma_specs_of(es: Seq<(Seq<char>, SpecV)>, d: i32)
    requires
        specs_normal(es),
    ensures
        specs_of(es.map_values(|e: (Seq<char>, SpecV)| spec_node_v(e.0, e.1)), d) == es,
    decreases es.len(),
{
    let ns = es.map_values(|e: (Seq<char>, SpecV)| spec_node_v(e.0, e.1));
    if es.len() > 0 {
        let init = es.drop_last();
        lemma_sorted_prefix(es);
        assert forall|i: int| 0 <= i < init.len() implies spec_normal(#[trigger] init[i].1) by {
            assert(init[i] == es[i]);
        }
        lemma_specs_of(init, d);
        assert(ns.drop_last() =~= init.map_values(|e: (Seq<char>, SpecV)| spec_node_v(e.0, e.1)));
        let last = es.last();
        assert(spec_normal(es[es.len() - 1].1));
        assert(ns.last() == spec_node_v(last.0, last.1));
        lemma_spec_round_trip(last.0, last.1, d);
        assert(es[es.len() - 1].0.len() > 0);
        crate::namemap::lemma_insert_at_end(init, last.0, last.1);
        assert(init.push(last) =~= es);
    } else {
        assert(ns.len() == 0);
    }
}

pub open spec fn class_normal(c: ClassV) -> bool {
    specs_normal(c.specs)
}

/// A class written out reads back as itself.
pub proof fn lemma_class_round_trip(name: Seq<char>, c: ClassV, d: i32)
    requires
        class_normal(c),
    ensures
        class_of_node(class_node_v(name, c), d) == c,
        node_name_arg(class_node_v(name, c)) == name,
        class_node_v(name, c).name == "class"@,
{
    reveal_strlit("icon");
    reveal_strlit("spec");
    reveal_strlit("");
    let n = class_node_v(name, c);
    let ns = c.specs.map_values(|e: (Seq<char>, SpecV)| spec_node_v(e.0, e.1));
    assert(n.children =~= ns);
    assert forall|i: int| 0 <= i < ns.len() implies (#[trigger] ns[i]).name == "spec"@ by {}
    lemma_named_all(ns, "spec"@);
    lemma_specs_of(c.specs, d);
    if c.icon.len() > 0 {
        lemma_prop_at(n, "icon"@, 0);
    } else {
        lemma_no_prop(n, "icon"@);
        assert(c.icon =~= ""@);
    }
}

pub open spec fn classes_normal(es: Seq<(Seq<char>, ClassV)>) -> bool {
    &&& entries_normal(es)
    &&& forall|i: int| 0 <= i < es.len() ==> class_normal(#[trigger] es[i].1)
}

proof fn lemma_classes_of(es: Seq<(Seq<char>, ClassV)>, d: i32)
    requires
        classes_normal(es),
    ensures
        classes_of(es.map_values(|e: (Seq<char>, ClassV)| class_node_v(e.0, e.1)), d) == es,
    decreases es.len(),
{
    let ns = es.map_values(|e: (Seq<char>, ClassV)| class_node_v(e.0, e.1));
    if es.len() > 0 {
        let init = es.drop_last();
        lemma_sorted_prefix(es);
        assert forall|i: int| 0 <= i < init.len() implies class_normal(#[trigger] init[i].1) by {
            assert(init[i] == es[i]);
        }
        lemma_classes_of(init, d);
        assert(ns.drop_last() =~= init.map_values(|e: (Seq<char>, ClassV)| class_node_v(e.0, e.1)));
        let last = es.last();
        assert(class_normal(es[es.len() - 1].1));
        assert(ns.last() == class_node_v(last.0, last.1));
        lemma_class_round_trip(last.0, last.1, d);
        assert(es[es.len() - 1].0.len() > 0);
        crate::namemap::lemma_insert_at_end(init, last.0, last.1);
        assert(init.push(last) =~= es);
    } else {
        assert(ns.len() == 0);
    }
}

pub open spec fn game_normal(g: GameV) -> bool {
    classes_normal(g.classes)
}

/// A game written out reads back as itself, whatever the default delay.
pub proof fn lemma_game_round_trip(name: Seq<char>, g: GameV, d: i32)
    requires
        game_normal(g),
    ensures
        game_of_node(game_node_v(name, g), d) == g,
        node_name_arg(game_node_v(name, g)) == name,
        game_node_v(name, g).name == "game"@,
{
    reveal_strlit("path");
    reveal_strlit("class");
    let n = game_node_v(name, g);
    let ns = g.classes.map_values(|e: (Seq<char>, ClassV)| class_node_v(e.0, e.1));
    assert(n.children =~= ns);
    assert forall|i: int| 0 <= i < ns.len() implies (#[trigger] ns[i]).name == "class"@ by {}
    lemma_named_all(ns, "class"@);
    lemma_classes_of(g.classes, d);
    lemma_prop_at(n, "path"@, 0);
}


// ── The whole tree ──────────────────────────────────────────────────────

pub open spec fn games_normal(es: Seq<(Seq<char>, GameV)>) -> bool {
    &&& entries_normal(es)
    &&& forall|i: int| 0 <= i < es.len() ==> game_normal(#[trigger] es[i].1)
}

/// Reading the game nodes after a prefix that left no games adds the games
/// in order.
proof fn lemma_parsed_games(pre: Seq<NodeV>, es: Seq<(Seq<char>, GameV)>, t0: ConfigTreeV)
    requires
        parsed_tree(pre, t0).games == Seq::<(Seq<char>, GameV)>::empty(),
        games_normal(es),
    ensures
        parsed_tree(pre + es.map_values(|e: (Seq<char>, GameV)| game_node_v(e.0, e.1)), t0) == (ConfigTreeV {
            games: es,
            ..parsed_tree(pre, t0)
        }),
    decreases es.len(),
{
    reveal_strlit("settings");
    reveal_strlit("active");
    reveal_strlit("game");
    let ns = pre + es.map_values(|e: (Seq<char>, GameV)| game_node_v(e.0, e.1));
    if es.len() == 0 {
        assert(ns =~= pre);
        assert(es =~= Seq::<(Seq<char>, GameV)>::empty());
    } else {
        let init = es.drop_last();
        lemma_sorted_prefix(es);
        assert forall|i: int| 0 <= i < init.len() implies game_normal(#[trigger] init[i].1) by {
            assert(init[i] == es[i]);
        }
        lemma_parsed_games(pre, init, t0);
        assert(ns.drop_last() =~= pre + init.map_values(|e: (Seq<char>, GameV)| game_node_v(e.0, e.1)));
        let last = es.last();
        assert(game_normal(es[es.len() - 1].1));
        assert(ns.last() == game_node_v(last.0, last.1));
        let prev = parsed_tree(ns.drop_last(), t0);
        lemma_game_round_trip(last.0, last.1, prev.settings.default_delay);
        assert(es[es.len() - 1].0.len() > 0);
        crate::namemap::lemma_insert_at_end(init, last.0, last.1);
        assert("game"@ != "settings"@);
        assert("game"@ != "active"@);
        assert(parsed_tree(ns, t0) == doc_step(prev, ns.last()));
        assert(init.push(last) =~= es);
    }
}

/// The settings node, read over the defaults, gives the settings back when
/// the overlay position is a known one.
proof fn lemma_settings_round_trip(t: ConfigTreeV)
    requires
        normalized_position(t.settings.overlay_position) == t.settings.overlay_position,
    ensures
        settings_of_node(doc_of_tree(t)[0], default_settings_v()) == t.settings,
{
    reveal_strlit("defaultDelay");
    reveal_strlit("autoDetectGame");
    reveal_strlit("onlyInGame");
    reveal_strlit("allowBackground");
    reveal_strlit("minimizeToTray");
    reveal_strlit("darkMode");
    reveal_strlit("toggleKey");
    reveal_strlit("pixelCheckRate");
    reveal_strlit("showTerminal");
    reveal_strlit("overlayPosition");
    let n = doc_of_tree(t)[0];
    let keys: Seq<Seq<char>> = seq![
        "defaultDelay"@,
        "autoDetectGame"@,
        "onlyInGame"@,
        "allowBackground"@,
        "minimizeToTray"@,
        "darkMode"@,
        "toggleKey"@,
        "pixelCheckRate"@,
        "showTerminal"@,
        "overlayPosition"@,
    ];
    assert forall|i: int| 0 <= i < 10 implies n.props[i].0 == #[trigger] keys[i] by {}
    assert(ascii_lower_seq("defaultDelay"@)[0] != ascii_lower_seq("showTerminal"@)[0]);
    assert(ascii_lower_seq("autoDetectGame"@)[0] != ascii_lower_seq("minimizeToTray"@)[0]);
    assert(ascii_lower_seq("autoDetectGame"@)[0] != ascii_lower_seq("pixelCheckRate"@)[0]);
    assert(ascii_lower_seq("minimizeToTray"@)[0] != ascii_lower_seq("pixelCheckRate"@)[0]);
    assert(ascii_lower_seq("allowBackground"@)[0] != ascii_lower_seq("overlayPosition"@)[0]);
    assert forall|i: int, j: int| 0 <= j < i < 10 implies !eq_ignore_ascii_case_spec(
        #[trigger] keys[j],
        #[trigger] keys[i],
    ) by {
        if keys[j].len() != keys[i].len() {
            lemma_len_differs(keys[j], keys[i]);
        }
    }
    lemma_prop_at(n, "defaultDelay"@, 0);
    lemma_prop_at(n, "autoDetectGame"@, 1);
    lemma_prop_at(n, "onlyInGame"@, 2);
    lemma_prop_at(n, "allowBackground"@, 3);
    lemma_prop_at(n, "minimizeToTray"@, 4);
    lemma_prop_at(n, "darkMode"@, 5);
    lemma_prop_at(n, "toggleKey"@, 6);
    lemma_prop_at(n, "pixelCheckRate"@, 7);
    lemma_prop_at(n, "showTerminal"@, 8);
    lemma_prop_at(n, "overlayPosition"@, 9);
}

/// The settings and selection nodes, read over the defaults, give the
/// tree's settings and selection, and no games.
proof fn lemma_header_round_trip(t: ConfigTreeV)
    requires
        normalized_position(t.settings.overlay_position) == t.settings.overlay_position,
    ensures
        parsed_tree(doc_of_tree(t).take(2), default_tree_v()) == (ConfigTreeV {
            games: Seq::empty(),
            ..t
        }),
{
    reveal_strlit("settings");
    reveal_strlit("active");
    reveal_strlit("game");
    reveal_strlit("class");
    reveal_strlit("spec");
    let doc = doc_of_tree(t);
    let h = doc.take(2);
    lemma_settings_round_trip(t);
    let a = doc[1];
    assert(a.props[0].0 == "game"@);
    assert(a.props[1].0 == "class"@);
    assert(a.props[2].0 == "spec"@);
    assert(ascii_lower_seq("game"@)[0] != ascii_lower_seq("spec"@)[0]);
    lemma_len_differs("game"@, "class"@);
    lemma_len_differs("class"@, "spec"@);
    lemma_prop_at(a, "game"@, 0);
    lemma_prop_at(a, "class"@, 1);
    lemma_prop_at(a, "spec"@, 2);
    assert(h.drop_last() =~= seq![doc[0]]);
    assert(seq![doc[0]].drop_last() =~= Seq::<NodeV>::empty());
    assert("settings"@.len() == 8 && "active"@.len() == 6);
    assert("settings"@ != "active"@);
    let one = seq![doc[0]];
    assert(one.len() == 1 && one.last() == doc[0]);
    assert(parsed_tree(Seq::<NodeV>::empty(), default_tree_v()) == default_tree_v());
    let t1 = parsed_tree(seq![doc[0]], default_tree_v());
    assert(t1 == doc_step(default_tree_v(), doc[0]));
    assert(parsed_tree(h, default_tree_v()) == doc_step(t1, doc[1]));
}

/// A tree that validation leaves alone: every macro, trigger and buff
/// already has its name, delay or cooldown or duration, mode, match mode,
/// pixels, refresh rule and trigger type.
pub open spec fn spec_settled(s: SpecV) -> bool {
    &&& forall|i: int| 0 <= i < s.macros.len() ==> {
        let m = #[trigger] s.macros[i];
        m.name.len() > 0 && m.delay != 0
    }
    &&& forall|i: int| 0 <= i < s.pixel_triggers.len() ==> {
        let p = #[trigger] s.pixel_triggers[i];
        p.name.len() > 0 && p.cooldown != 0 && p.match_mode.len() > 0 && p.pixels.len() > 0
    }
    &&& forall|i: int| 0 <= i < s.buff_timers.len() ==> {
        let b = #[trigger] s.buff_timers[i];
        b.name.len() > 0 && b.duration != 0 && b.on_refresh.len() > 0 && b.trigger_type.len() > 0
    }
}

/// A tree in the form loading produces: known overlay position; sorted,
/// non-empty names at every level; every macro, trigger, buff and detector
/// in the form its reader gives; nothing left for validation to fill in.
pub open spec fn tree_normal(t: ConfigTreeV) -> bool {
    &&& normalized_position(t.settings.overlay_position) == t.settings.overlay_position
    &&& games_normal(t.games)
    &&& forall|i: int, j: int, k: int|
        0 <= i < t.games.len() && 0 <= j < t.games[i].1.classes.len() && 0 <= k
            < t.games[i].1.classes[j].1.specs.len() ==> spec_settled(
            #[trigger] t.games[i].1.classes[j].1.specs[k].1,
        )
}

/// Validation leaves a settled tree as it is.
proof fn lemma_validated_settled(t: ConfigTreeV)
    requires
        tree_normal(t),
    ensures
        validated_tree(t) == t,
{
    let d = t.settings.default_delay;
    let v = validated_tree(t);
    assert forall|i: int| 0 <= i < t.games.len() implies #[trigger] v.games[i] == t.games[i] by {
        let g = t.games[i].1;
        let vg = v.games[i].1;
        assert forall|j: int| 0 <= j < g.classes.len() implies #[trigger] vg.classes[j] == g.classes[j] by {
            let c = g.classes[j].1;
            let vc = vg.classes[j].1;
            assert forall|k: int| 0 <= k < c.specs.len() implies #[trigger] vc.specs[k] == c.specs[k] by {
                let s = c.specs[k].1;
                let vs = vc.specs[k].1;
                assert(spec_settled(t.games[i].1.classes[j].1.specs[k].1));
                assert forall|x: int| 0 <= x < s.macros.len() implies #[trigger] vs.macros[x] == s.macros[x] by {
                    assert(validated_macro(s.macros[x], d) == s.macros[x]);
                }
                assert forall|x: int| 0 <= x < s.pixel_triggers.len() implies #[trigger] vs.pixel_triggers[x]
                    == s.pixel_triggers[x] by {
                    assert(validated_trigger(s.pixel_triggers[x]) == s.pixel_triggers[x]);
                }
                assert forall|x: int| 0 <= x < s.buff_timers.len() implies #[trigger] vs.buff_timers[x]
                    == s.buff_timers[x] by {
                    assert(validated_buff(s.buff_timers[x]) == s.buff_timers[x]);
                }
                assert(vs.macros =~= s.macros);
                assert(vs.pixel_triggers =~= s.pixel_triggers);
                assert(vs.buff_timers =~= s.buff_timers);
            }
            assert(vc.specs =~= c.specs);
        }
        assert(vg.classes =~= g.classes);
    }
    assert(v.games =~= t.games);
}

/// Writing a tree out as a document and loading that document gives the
/// same tree back, for every tree in the form loading produces.
pub proof fn lemma_config_round_trip(t: ConfigTreeV)
    requires
        tree_normal(t),
    ensures
        loaded_tree(doc_of_tree(t)) == t,
{
    let doc = doc_of_tree(t);
    let gs = t.games.map_values(|e: (Seq<char>, GameV)| game_node_v(e.0, e.1));
    assert(doc =~= doc.take(2) + gs);
    lemma_header_round_trip(t);
    lemma_parsed_games(doc.take(2), t.games, default_tree_v());
    lemma_validated_settled(t);
}

} // verus!
