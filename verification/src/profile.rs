//! Editing the profile tree the way the sidebar and the tabs do: choosing
//! the active game, class or spec, renaming, adding and deleting nodes, and
//! reading or replacing the active spec and its buff timers.

use vstd::prelude::*;
use crate::config::{
    Anchor, BuffTimer, Class, ClassV, ConfigTree, ConfigTreeV, Detect, Game, GameV, Macro, PixelTrigger,
    Spec, SpecV, BuffTimerV, active_spec_of, anchor_opt_view, buffs_view, empty_spec_v,
};
use crate::engine::{clone_pixels, clone_strings, copy_buff};
use crate::namemap::{NameMap, find_key, insert_spec, lookup, remove_spec, sorted_keys};
use crate::text::{owned, str_eq, trim};

verus! {

// ── Copies ──────────────────────────────────────────────────────────────

fn copy_macro(m: &Macro) -> (r: Macro)
    ensures
        r@ == m@,
{
    Macro {
        name: m.name.clone(),
        hotkey: m.hotkey.clone(),
        delay: m.delay,
        mode: m.mode.clone(),
        hold_mode: m.hold_mode,
        keys: clone_strings(&m.keys),
        inter_key_delay: m.inter_key_delay,
        enabled: m.enabled,
        max_hold_duration: m.max_hold_duration,
        background: m.background,
    }
}

fn copy_anchor(a: &Option<Anchor>) -> (r: Option<Anchor>)
    ensures
        anchor_opt_view(r) == anchor_opt_view(*a),
{
    match a {
        Some(x) => Some(Anchor { pixels: clone_pixels(&x.pixels), match_mode: x.match_mode.clone() }),
        None => None,
    }
}

fn copy_trigger(t: &PixelTrigger) -> (r: PixelTrigger)
    ensures
        r@ == t@,
{
    PixelTrigger {
        name: t.name.clone(),
        action_key: t.action_key.clone(),
        pixels: clone_pixels(&t.pixels),
        match_mode: t.match_mode.clone(),
        inverse: t.inverse,
        enabled: t.enabled,
        cooldown: t.cooldown,
        last_fired: t.last_fired,
        trigger_mode: t.trigger_mode.clone(),
        macro_hotkey: t.macro_hotkey.clone(),
        capture_res: t.capture_res,
        anchor: copy_anchor(&t.anchor),
        blocker: copy_anchor(&t.blocker),
    }
}

/// A copy of a spec, field for field.
pub fn copy_spec(s: &Spec) -> (r: Spec)
    ensures
        r@ == s@,
{
    let mut macros: Vec<Macro> = Vec::new();
    let mut i: usize = 0;
    while i < s.macros.len()
        invariant
            i <= s.macros@.len(),
            macros@.len() == i,
            forall|k: int| 0 <= k < i ==> #[trigger] macros@[k]@ == s.macros@[k]@,
        decreases s.macros@.len() - i,
    {
        macros.push(copy_macro(&s.macros[i]));
        i += 1;
    }
    let mut triggers: Vec<PixelTrigger> = Vec::new();
    let mut i: usize = 0;
    while i < s.pixel_triggers.len()
        invariant
            i <= s.pixel_triggers@.len(),
            triggers@.len() == i,
            forall|k: int| 0 <= k < i ==> #[trigger] triggers@[k]@ == s.pixel_triggers@[k]@,
        decreases s.pixel_triggers@.len() - i,
    {
        triggers.push(copy_trigger(&s.pixel_triggers[i]));
        i += 1;
    }
    let mut buffs: Vec<BuffTimer> = Vec::new();
    let mut i: usize = 0;
    while i < s.buff_timers.len()
        invariant
            i <= s.buff_timers@.len(),
            buffs@.len() == i,
            forall|k: int| 0 <= k < i ==> #[trigger] buffs@[k]@ == s.buff_timers@[k]@,
        decreases s.buff_timers@.len() - i,
    {
        buffs.push(copy_buff(&s.buff_timers[i]));
        i += 1;
    }
    let detect = match &s.detect {
        Some(d) => Some(Detect { pixels: clone_pixels(&d.pixels), match_mode: d.match_mode.clone(), capture_res: d.capture_res }),
        None => None,
    };
    let r = Spec { macros, pixel_triggers: triggers, buff_timers: buffs, detect };
    proof {
        assert(r@.macros =~= s@.macros);
        assert(r@.pixel_triggers =~= s@.pixel_triggers);
        assert(r@.buff_timers =~= s@.buff_timers);
    }
    r
}

/// A copy of the spec the active game, class and spec names select.
pub fn get_active_spec(tree: &ConfigTree) -> (r: Option<Spec>)
    ensures
        match r {
            Some(s) => active_spec_of(tree@) == Some(s@),
            None => active_spec_of(tree@) is None,
        },
{
    match crate::config::get_spec(tree) {
        Some(s) => Some(copy_spec(s)),
        None => None,
    }
}

// ── Tree nodes ──────────────────────────────────────────────────────────

/// A row of the profile tree: a game, a class of a game, or a spec of a
/// class.
#[derive(Debug, PartialEq)]
pub enum TreeNode {
    Game(String),
    Class(String, String),
    Spec(String, String, String),
}

pub enum NodeV {
    Game(Seq<char>),
    Class(Seq<char>, Seq<char>),
    Spec(Seq<char>, Seq<char>, Seq<char>),
}

impl View for TreeNode {
    type V = NodeV;

    open spec fn view(&self) -> NodeV {
        match self {
            TreeNode::Game(g) => NodeV::Game(g@),
            TreeNode::Class(g, c) => NodeV::Class(g@, c@),
            TreeNode::Spec(g, c, s) => NodeV::Spec(g@, c@, s@),
        }
    }
}

/// The tree's maps are all sorted by name (as a `NameMap` keeps them).
pub open spec fn tree_wf(t: ConfigTreeV) -> bool {
    &&& sorted_keys(t.games)
    &&& forall|i: int| 0 <= i < t.games.len() ==> sorted_keys(#[trigger] t.games[i].1.classes)
    &&& forall|i: int, j: int|
        0 <= i < t.games.len() && 0 <= j < t.games[i].1.classes.len() ==> sorted_keys(
            #[trigger] t.games[i].1.classes[j].1.specs,
        )
}

/// Selecting a node makes it the active one; the levels below it are
/// cleared.
pub open spec fn select_spec(t: ConfigTreeV, n: NodeV) -> ConfigTreeV {
    match n {
        NodeV::Game(g) => ConfigTreeV { active_game: g, active_class: Seq::empty(), active_spec: Seq::empty(), ..t },
        NodeV::Class(g, c) => ConfigTreeV { active_game: g, active_class: c, active_spec: Seq::empty(), ..t },
        NodeV::Spec(g, c, s) => ConfigTreeV { active_game: g, active_class: c, active_spec: s, ..t },
    }
}

pub fn select_node(tree: &mut ConfigTree, node: &TreeNode)
    ensures
        final(tree)@ == select_spec(old(tree)@, node@),
{
    match node {
        TreeNode::Game(g) => {
            tree.active_game = g.clone();
            tree.active_class = String::new();
            tree.active_spec = String::new();
        },
        TreeNode::Class(g, c) => {
            tree.active_game = g.clone();
            tree.active_class = c.clone();
            tree.active_spec = String::new();
        },
        TreeNode::Spec(g, c, s) => {
            tree.active_game = g.clone();
            tree.active_class = c.clone();
            tree.active_spec = s.clone();
        },
    }
}

/// An entry moved from one name to another (nothing happens when the old
/// name is absent).
pub open spec fn rename_key<V>(es: Seq<(Seq<char>, V)>, old: Seq<char>, new: Seq<char>) -> Seq<(Seq<char>, V)> {
    match lookup(es, old) {
        Some(v) => insert_spec(remove_spec(es, old), new, v),
        None => es,
    }
}

/// The game named `g` with its classes replaced (nothing happens when there
/// is no such game).
pub open spec fn with_game_classes(
    games: Seq<(Seq<char>, GameV)>,
    g: Seq<char>,
    f: spec_fn(Seq<(Seq<char>, ClassV)>) -> Seq<(Seq<char>, ClassV)>,
) -> Seq<(Seq<char>, GameV)> {
    match find_key(games, g) {
        Some(i) => games.update(i, (games[i].0, GameV { classes: f(games[i].1.classes), ..games[i].1 })),
        None => games,
    }
}

/// The class named `c` with its specs replaced.
pub open spec fn with_class_specs(
    classes: Seq<(Seq<char>, ClassV)>,
    c: Seq<char>,
    f: spec_fn(Seq<(Seq<char>, SpecV)>) -> Seq<(Seq<char>, SpecV)>,
) -> Seq<(Seq<char>, ClassV)> {
    match find_key(classes, c) {
        Some(j) => classes.update(j, (classes[j].0, ClassV { specs: f(classes[j].1.specs), ..classes[j].1 })),
        None => classes,
    }
}

pub open spec fn rename_class_in(old: Seq<char>, new: Seq<char>) -> spec_fn(Seq<(Seq<char>, ClassV)>) -> Seq<(Seq<char>, ClassV)> {
    |cs: Seq<(Seq<char>, ClassV)>| rename_key(cs, old, new)
}

pub open spec fn rename_spec_in(old: Seq<char>, new: Seq<char>) -> spec_fn(Seq<(Seq<char>, SpecV)>) -> Seq<(Seq<char>, SpecV)> {
    |ss: Seq<(Seq<char>, SpecV)>| rename_key(ss, old, new)
}

pub open spec fn in_class(c: Seq<char>, f: spec_fn(Seq<(Seq<char>, SpecV)>) -> Seq<(Seq<char>, SpecV)>) -> spec_fn(Seq<(Seq<char>, ClassV)>) -> Seq<(Seq<char>, ClassV)> {
    |cs: Seq<(Seq<char>, ClassV)>| with_class_specs(cs, c, f)
}

/// Renaming a node moves its subtree to the new name and keeps the
/// selection on it.
pub open spec fn rename_spec(t: ConfigTreeV, n: NodeV, new: Seq<char>) -> ConfigTreeV {
    match n {
        NodeV::Game(old) => ConfigTreeV {
            games: rename_key(t.games, old, new),
            active_game: if t.active_game == old { new } else { t.active_game },
            ..t
        },
        NodeV::Class(g, old) => ConfigTreeV {
            games: with_game_classes(t.games, g, rename_class_in(old, new)),
            active_class: if t.active_game == g && t.active_class == old { new } else { t.active_class },
            ..t
        },
        NodeV::Spec(g, c, old) => ConfigTreeV {
            games: with_game_classes(t.games, g, in_class(c, rename_spec_in(old, new))),
            active_spec: if t.active_game == g && t.active_class == c && t.active_spec == old {
                new
            } else {
                t.active_spec
            },
            ..t
        },
    }
}

fn rename_in_map<V: View>(m: &mut NameMap<V>, from: &str, new: &str)
    ensures
        final(m)@ == rename_key(old(m)@, from@, new@),
{
    match m.remove(from) {
        Some(v) => {
            m.insert(owned(new), v);
        },
        None => {},
    }
}

fn empty_game() -> (r: Game)
    ensures
        r@ == (GameV { path: Seq::empty(), classes: Seq::empty() }),
{
    let r = Game { path: String::new(), classes: NameMap::new() };
    proof {
        assert(r@.path =~= Seq::<char>::empty());
    }
    r
}

fn empty_class() -> (r: Class)
    ensures
        r@ == (ClassV { specs: Seq::empty(), icon: Seq::empty() }),
{
    let r = Class { specs: NameMap::new(), icon: String::new() };
    proof {
        assert(r@.icon =~= Seq::<char>::empty());
    }
    r
}

pub fn apply_rename(tree: &mut ConfigTree, node: &TreeNode, new_name: &str)
    ensures
        final(tree)@ == rename_spec(old(tree)@, node@, new_name@),
{
    let ghost t0 = tree@;
    match node {
        TreeNode::Game(from) => {
            rename_in_map(&mut tree.games, from.as_str(), new_name);
            if str_eq(tree.active_game.as_str(), from.as_str()) {
                tree.active_game = owned(new_name);
            }
        },
        TreeNode::Class(g, from) => {
            match tree.games.index_of(g.as_str()) {
                Some(i) => {
                    let mut game = tree.games.replace_value_at(i, empty_game());
                    rename_in_map(&mut game.classes, from.as_str(), new_name);
                    tree.games.replace_value_at(i, game);
                },
                None => {},
            }
            if str_eq(tree.active_game.as_str(), g.as_str()) && str_eq(tree.active_class.as_str(), from.as_str()) {
                tree.active_class = owned(new_name);
            }
            proof {
                assert(tree@.games =~= with_game_classes(t0.games, g@, rename_class_in(from@, new_name@)));
            }
        },
        TreeNode::Spec(g, c, from) => {
            match tree.games.index_of(g.as_str()) {
                Some(i) => {
                    let mut game = tree.games.replace_value_at(i, empty_game());
                    let ghost g0 = game@;
                    match game.classes.index_of(c.as_str()) {
                        Some(j) => {
                            let mut class = game.classes.replace_value_at(j, empty_class());
                            rename_in_map(&mut class.specs, from.as_str(), new_name);
                            game.classes.replace_value_at(j, class);
                        },
                        None => {},
                    }
                    proof {
                        assert(game@.classes =~= with_class_specs(g0.classes, c@, rename_spec_in(from@, new_name@)));
                        assert(game@.classes == in_class(c@, rename_spec_in(from@, new_name@))(g0.classes));
                    }
                    tree.games.replace_value_at(i, game);
                },
                None => {},
            }
            if str_eq(tree.active_game.as_str(), g.as_str()) && str_eq(tree.active_class.as_str(), c.as_str())
                && str_eq(tree.active_spec.as_str(), from.as_str()) {
                tree.active_spec = owned(new_name);
            }
            proof {
                assert(tree@.games =~= with_game_classes(
                    t0.games,
                    g@,
                    in_class(c@, rename_spec_in(from@, new_name@)),
                ));
            }
        },
    }
}


pub open spec fn remove_class_in(c: Seq<char>) -> spec_fn(Seq<(Seq<char>, ClassV)>) -> Seq<(Seq<char>, ClassV)> {
    |cs: Seq<(Seq<char>, ClassV)>| remove_spec(cs, c)
}

pub open spec fn remove_spec_in(s: Seq<char>) -> spec_fn(Seq<(Seq<char>, SpecV)>) -> Seq<(Seq<char>, SpecV)> {
    |ss: Seq<(Seq<char>, SpecV)>| remove_spec(ss, s)
}

/// Deleting a node drops its subtree; when it (or what lies under it) was
/// selected, the selection from that level down is cleared.
pub open spec fn delete_spec(t: ConfigTreeV, n: NodeV) -> ConfigTreeV {
    match n {
        NodeV::Game(g) => if t.active_game == g {
            ConfigTreeV {
                games: remove_spec(t.games, g),
                active_game: Seq::empty(),
                active_class: Seq::empty(),
                active_spec: Seq::empty(),
                ..t
            }
        } else {
            ConfigTreeV { games: remove_spec(t.games, g), ..t }
        },
        NodeV::Class(g, c) => if t.active_game == g && t.active_class == c {
            ConfigTreeV {
                games: with_game_classes(t.games, g, remove_class_in(c)),
                active_class: Seq::empty(),
                active_spec: Seq::empty(),
                ..t
            }
        } else {
            ConfigTreeV { games: with_game_classes(t.games, g, remove_class_in(c)), ..t }
        },
        NodeV::Spec(g, c, sp) => ConfigTreeV {
            games: with_game_classes(t.games, g, in_class(c, remove_spec_in(sp))),
            active_spec: if t.active_game == g && t.active_class == c && t.active_spec == sp {
                Seq::empty()
            } else {
                t.active_spec
            },
            ..t
        },
    }
}

pub fn delete_node(tree: &mut ConfigTree, node: &TreeNode)
    ensures
        final(tree)@ == delete_spec(old(tree)@, node@),
{
    let ghost t0 = tree@;
    match node {
        TreeNode::Game(g) => {
            tree.games.remove(g.as_str());
            if str_eq(tree.active_game.as_str(), g.as_str()) {
                tree.active_game = String::new();
                tree.active_class = String::new();
                tree.active_spec = String::new();
            }
        },
        TreeNode::Class(g, c) => {
            match tree.games.index_of(g.as_str()) {
                Some(i) => {
                    let mut game = tree.games.replace_value_at(i, empty_game());
                    game.classes.remove(c.as_str());
                    tree.games.replace_value_at(i, game);
                },
                None => {},
            }
            if str_eq(tree.active_game.as_str(), g.as_str()) && str_eq(tree.active_class.as_str(), c.as_str()) {
                tree.active_class = String::new();
                tree.active_spec = String::new();
            }
            proof {
                assert(tree@.games =~= with_game_classes(t0.games, g@, remove_class_in(c@)));
            }
        },
        TreeNode::Spec(g, c, sp) => {
            match tree.games.index_of(g.as_str()) {
                Some(i) => {
                    let mut game = tree.games.replace_value_at(i, empty_game());
                    let ghost g0 = game@;
                    match game.classes.index_of(c.as_str()) {
                        Some(j) => {
                            let mut class = game.classes.replace_value_at(j, empty_class());
                            class.specs.remove(sp.as_str());
                            game.classes.replace_value_at(j, class);
                        },
                        None => {},
                    }
                    proof {
                        assert(game@.classes =~= with_class_specs(g0.classes, c@, remove_spec_in(sp@)));
                        assert(game@.classes == in_class(c@, remove_spec_in(sp@))(g0.classes));
                    }
                    tree.games.replace_value_at(i, game);
                },
                None => {},
            }
            if str_eq(tree.active_game.as_str(), g.as_str()) && str_eq(tree.active_class.as_str(), c.as_str())
                && str_eq(tree.active_spec.as_str(), sp.as_str()) {
                tree.active_spec = String::new();
            }
            proof {
                assert(tree@.games =~= with_game_classes(t0.games, g@, in_class(c@, remove_spec_in(sp@))));
            }
        },
    }
}

pub open spec fn add_class_in(name: Seq<char>) -> spec_fn(Seq<(Seq<char>, ClassV)>) -> Seq<(Seq<char>, ClassV)> {
    |cs: Seq<(Seq<char>, ClassV)>| insert_spec(cs, name, ClassV { specs: Seq::empty(), icon: Seq::empty() })
}

pub open spec fn add_spec_in(name: Seq<char>) -> spec_fn(Seq<(Seq<char>, SpecV)>) -> Seq<(Seq<char>, SpecV)> {
    |ss: Seq<(Seq<char>, SpecV)>| insert_spec(ss, name, empty_spec_v())
}

/// Adding under a game makes an empty class; under a class, an empty spec;
/// a spec has no children. An existing entry of that name is replaced.
pub open spec fn add_child_spec(t: ConfigTreeV, n: NodeV, name: Seq<char>) -> ConfigTreeV {
    match n {
        NodeV::Game(g) => ConfigTreeV { games: with_game_classes(t.games, g, add_class_in(name)), ..t },
        NodeV::Class(g, c) => ConfigTreeV { games: with_game_classes(t.games, g, in_class(c, add_spec_in(name))), ..t },
        NodeV::Spec(..) => t,
    }
}

fn empty_spec() -> (r: Spec)
    ensures
        r@ == empty_spec_v(),
{
    let r = Spec { macros: Vec::new(), pixel_triggers: Vec::new(), buff_timers: Vec::new(), detect: None };
    proof {
        assert(r@.macros =~= Seq::<crate::config::MacroV>::empty());
        assert(r@.pixel_triggers =~= Seq::<crate::config::PixelTriggerV>::empty());
        assert(r@.buff_timers =~= Seq::<BuffTimerV>::empty());
    }
    r
}

pub fn add_child(tree: &mut ConfigTree, node: &TreeNode, name: &str)
    ensures
        final(tree)@ == add_child_spec(old(tree)@, node@, name@),
{
    let ghost t0 = tree@;
    match node {
        TreeNode::Game(g) => {
            match tree.games.index_of(g.as_str()) {
                Some(i) => {
                    let mut game = tree.games.replace_value_at(i, empty_game());
                    game.classes.insert(owned(name), empty_class());
                    tree.games.replace_value_at(i, game);
                },
                None => {},
            }
            proof {
                assert(tree@.games =~= with_game_classes(t0.games, g@, add_class_in(name@)));
            }
        },
        TreeNode::Class(g, c) => {
            match tree.games.index_of(g.as_str()) {
                Some(i) => {
                    let mut game = tree.games.replace_value_at(i, empty_game());
                    let ghost g0 = game@;
                    match game.classes.index_of(c.as_str()) {
                        Some(j) => {
                            let mut class = game.classes.replace_value_at(j, empty_class());
                            class.specs.insert(owned(name), empty_spec());
                            game.classes.replace_value_at(j, class);
                        },
                        None => {},
                    }
                    proof {
                        assert(game@.classes =~= with_class_specs(g0.classes, c@, add_spec_in(name@)));
                        assert(game@.classes == in_class(c@, add_spec_in(name@))(g0.classes));
                    }
                    tree.games.replace_value_at(i, game);
                },
                None => {},
            }
            proof {
                assert(tree@.games =~= with_game_classes(t0.games, g@, in_class(c@, add_spec_in(name@))));
            }
        },
        TreeNode::Spec(..) => {},
    }
}

/// Adding a game by the name typed (trimmed): an empty game under that
/// name, made active with no class or spec. A blank name adds nothing.
pub open spec fn add_game_spec(t: ConfigTreeV, name: Seq<char>) -> ConfigTreeV {
    let n = crate::text::trim_spec(name);
    if n.len() == 0 {
        t
    } else {
        ConfigTreeV {
            games: insert_spec(t.games, n, GameV { path: Seq::empty(), classes: Seq::empty() }),
            active_game: n,
            active_class: Seq::empty(),
            active_spec: Seq::empty(),
            ..t
        }
    }
}

pub fn add_game(tree: &mut ConfigTree, name: &str) -> (added: bool)
    ensures
        final(tree)@ == add_game_spec(old(tree)@, name@),
        added == (crate::text::trim_spec(name@).len() > 0),
{
    let n = trim(name);
    if n.as_str().is_empty() {
        return false;
    }
    tree.games.insert(n.clone(), empty_game());
    tree.active_game = n;
    tree.active_class = String::new();
    tree.active_spec = String::new();
    true
}

// ── The active spec ─────────────────────────────────────────────────────

/// The tree with the active spec replaced by `s` (unchanged when the
/// active game, class or spec does not exist).
pub open spec fn put_active(t: ConfigTreeV, s: SpecV) -> ConfigTreeV {
    match find_key(t.games, t.active_game) {
        Some(i) => {
            let g = t.games[i].1;
            match find_key(g.classes, t.active_class) {
                Some(j) => {
                    let c = g.classes[j].1;
                    match find_key(c.specs, t.active_spec) {
                        Some(k) => ConfigTreeV {
                            games: t.games.update(
                                i,
                                (
                                    t.games[i].0,
                                    GameV {
                                        classes: g.classes.update(
                                            j,
                                            (g.classes[j].0, ClassV { specs: c.specs.update(k, (c.specs[k].0, s)), ..c }),
                                        ),
                                        ..g
                                    },
                                ),
                            ),
                            ..t
                        },
                        None => t,
                    }
                },
                None => t,
            }
        },
        None => t,
    }
}

/// Replace the active spec, when the active game, class and spec exist;
/// says whether it did.
pub fn set_active_spec(tree: &mut ConfigTree, spec: Spec) -> (done: bool)
    ensures
        final(tree)@ == put_active(old(tree)@, spec@),
        done == (active_spec_of(old(tree)@) is Some),
{
    let ghost t0 = tree@;
    let ghost sv = spec@;
    proof {
        crate::namemap::lemma_find_found(t0.games, t0.active_game);
    }
    match tree.games.index_of(tree.active_game.as_str()) {
        Some(i) => {
            let mut game = tree.games.replace_value_at(i, empty_game());
            proof {
                crate::namemap::lemma_find_found(game@.classes, t0.active_class);
            }
            match game.classes.index_of(tree.active_class.as_str()) {
                Some(j) => {
                    let mut class = game.classes.replace_value_at(j, empty_class());
                    proof {
                        crate::namemap::lemma_find_found(class@.specs, t0.active_spec);
                    }
                    match class.specs.index_of(tree.active_spec.as_str()) {
                        Some(k) => {
                            let ghost c0 = class@;
                            let ghost g0 = game@;
                            class.specs.replace_value_at(k, spec);
                            proof {
                                assert(class@.specs =~= c0.specs.update(k as int, (c0.specs[k as int].0, sv)));
                            }
                            game.classes.replace_value_at(j, class);
                            proof {
                                assert(game@.classes =~= g0.classes.update(j as int, (g0.classes[j as int].0, class@)));
                            }
                            tree.games.replace_value_at(i, game);
                            proof {
                                let og = t0.games[i as int].1;
                                let oc = og.classes[j as int].1;
                                assert(find_key(t0.games, t0.active_game) == Some(i as int));
                                assert(find_key(og.classes, t0.active_class) == Some(j as int));
                                assert(c0 == oc);
                                assert(find_key(oc.specs, t0.active_spec) == Some(k as int));
                                assert(class@ == (ClassV { specs: oc.specs.update(k as int, (oc.specs[k as int].0, sv)), ..oc }));
                                assert(game@.classes =~= og.classes.update(j as int, (og.classes[j as int].0, class@)));
                                assert(tree@.games =~= put_active(t0, sv).games);
                            }
                            true
                        },
                        None => {
                            game.classes.replace_value_at(j, class);
                            tree.games.replace_value_at(i, game);
                            proof {
                                assert(game@.classes =~= t0.games[i as int].1.classes);
                                assert(tree@.games =~= t0.games);
                            }
                            false
                        },
                    }
                },
                None => {
                    tree.games.replace_value_at(i, game);
                    proof {
                        assert(tree@.games =~= t0.games);
                    }
                    false
                },
            }
        },
        None => false,
    }
}

/// A new buff timer as the Buffs tab adds it.
pub open spec fn new_buff_v() -> BuffTimerV {
    BuffTimerV {
        name: "New Buff"@,
        watch_keys: Seq::empty(),
        duration: 5000,
        action_key: Seq::empty(),
        on_refresh: "reset"@,
        extend_ms: 0,
        enabled: true,
        sound_on_expiry: false,
        trigger_type: "keys"@,
        trigger_pixels: Seq::empty(),
        trigger_match_mode: "all"@,
        capture_res: None,
    }
}

fn new_buff() -> (r: BuffTimer)
    ensures
        r@ == new_buff_v(),
{
    let r = BuffTimer {
        name: owned("New Buff"),
        watch_keys: Vec::new(),
        duration: 5000,
        action_key: String::new(),
        on_refresh: owned("reset"),
        extend_ms: 0,
        enabled: true,
        sound_on_expiry: false,
        trigger_type: owned("keys"),
        trigger_pixels: Vec::new(),
        trigger_match_mode: owned("all"),
        capture_res: None,
    };
    proof {
        assert(r@.watch_keys =~= Seq::<Seq<char>>::empty());
        assert(r@.trigger_pixels =~= Seq::<crate::config::PixelV>::empty());
        assert(r@.action_key =~= Seq::<char>::empty());
    }
    r
}

/// Append a new buff timer to the active spec (nothing without one).
pub fn add_buff(tree: &mut ConfigTree)
    ensures
        final(tree)@ == match active_spec_of(old(tree)@) {
            Some(s) => put_active(old(tree)@, SpecV { buff_timers: s.buff_timers.push(new_buff_v()), ..s }),
            None => old(tree)@,
        },
{
    match get_active_spec(tree) {
        Some(mut s) => {
            s.buff_timers.push(new_buff());
            proof {
                assert(buffs_view(s.buff_timers@) =~= active_spec_of(old(tree)@)->0.buff_timers.push(new_buff_v()));
            }
            set_active_spec(tree, s);
        },
        None => {},
    }
}

/// Remove the active spec's buff timer at `idx`, when there is one there.
pub fn delete_buff(tree: &mut ConfigTree, idx: usize)
    ensures
        final(tree)@ == match active_spec_of(old(tree)@) {
            Some(s) => if idx < s.buff_timers.len() {
                put_active(old(tree)@, SpecV { buff_timers: s.buff_timers.remove(idx as int), ..s })
            } else {
                old(tree)@
            },
            None => old(tree)@,
        },
{
    match get_active_spec(tree) {
        Some(mut s) => {
            if idx < s.buff_timers.len() {
                s.buff_timers.remove(idx);
                proof {
                    assert(buffs_view(s.buff_timers@) =~= active_spec_of(old(tree)@)->0.buff_timers.remove(
                        idx as int,
                    ));
                }
                set_active_spec(tree, s);
            }
        },
        None => {},
    }
}


// ── Laws ────────────────────────────────────────────────────────────────

/// Removing a name from sorted entries leaves every other name reading as
/// before.
pub proof fn lemma_remove_lookup_other<V>(es: Seq<(Seq<char>, V)>, k: Seq<char>, k2: Seq<char>)
    requires
        sorted_keys(es),
        k2 != k,
    ensures
        lookup(remove_spec(es, k), k2) == lookup(es, k2),
{
    crate::namemap::lemma_remove_spec_gone(es, k);
    crate::namemap::lemma_find_found(es, k);
    crate::namemap::lemma_find_found(es, k2);
    let r = remove_spec(es, k);
    crate::namemap::lemma_find_found(r, k2);
    match find_key(es, k) {
        None => {},
        Some(f) => {
            match find_key(es, k2) {
                Some(j) => {
                    let j1 = if j < f {
                        j
                    } else {
                        j - 1
                    };
                    assert(j != f);
                    assert(r[j1] == es[j]);
                    crate::namemap::lemma_find_unique(r, k2, j1);
                },
                None => {
                    crate::namemap::lemma_find_none(es, k2);
                    if let Some(i) = find_key(r, k2) {
                        let i0 = if i < f {
                            i
                        } else {
                            i + 1
                        };
                        assert(r[i] == es[i0]);
                    }
                },
            }
        },
    }
}

/// Renaming an existing game moves its whole subtree to the new name; the
/// old name is gone (unless it is the new one too), and every other game
/// is untouched.
pub proof fn lemma_rename_moves_subtree(t: ConfigTreeV, from: Seq<char>, new: Seq<char>, other: Seq<char>)
    requires
        sorted_keys(t.games),
        lookup(t.games, from) is Some,
    ensures
        lookup(rename_spec(t, NodeV::Game(from), new).games, new) == lookup(t.games, from),
        new != from ==> lookup(rename_spec(t, NodeV::Game(from), new).games, from) is None,
        other != from && other != new ==> lookup(rename_spec(t, NodeV::Game(from), new).games, other) == lookup(
            t.games,
            other,
        ),
{
    let v = lookup(t.games, from)->0;
    crate::namemap::lemma_remove_spec_gone(t.games, from);
    let rm = remove_spec(t.games, from);
    crate::namemap::lemma_insert_lookup(rm, new, v, from);
    crate::namemap::lemma_insert_lookup(rm, new, v, other);
    if other != from {
        lemma_remove_lookup_other(t.games, from, other);
    }
}

/// Deleting a game removes it and leaves the other games as they were.
pub proof fn lemma_delete_game(t: ConfigTreeV, g: Seq<char>, other: Seq<char>)
    requires
        sorted_keys(t.games),
    ensures
        lookup(delete_spec(t, NodeV::Game(g)).games, g) is None,
        other != g ==> lookup(delete_spec(t, NodeV::Game(g)).games, other) == lookup(t.games, other),
{
    crate::namemap::lemma_remove_spec_gone(t.games, g);
    if other != g {
        lemma_remove_lookup_other(t.games, g, other);
    }
}

/// Entries whose values change but whose names do not stay sorted, and a
/// name is found where it was.
proof fn lemma_update_value_same_key<V>(es: Seq<(Seq<char>, V)>, i: int, v: V, k: Seq<char>)
    requires
        sorted_keys(es),
        0 <= i < es.len(),
        find_key(es, k) == Some(i),
    ensures
        sorted_keys(es.update(i, (es[i].0, v))),
        find_key(es.update(i, (es[i].0, v)), k) == Some(i),
{
    let u = es.update(i, (es[i].0, v));
    assert forall|a: int, b: int| 0 <= a < b < u.len() implies crate::namemap::key_lt(#[trigger] u[a].0, #[trigger] u[b].0) by {
        assert(u[a].0 == es[a].0);
        assert(u[b].0 == es[b].0);
    }
    crate::namemap::lemma_find_found(es, k);
    crate::namemap::lemma_find_unique(u, k, i);
}

/// Reading the active spec back after replacing it gives the new spec.
pub proof fn lemma_put_then_get(t: ConfigTreeV, s: SpecV)
    requires
        tree_wf(t),
        active_spec_of(t) is Some,
    ensures
        active_spec_of(put_active(t, s)) == Some(s),
{
    crate::namemap::lemma_find_found(t.games, t.active_game);
    let i = find_key(t.games, t.active_game)->0;
    let g = t.games[i].1;
    crate::namemap::lemma_find_found(g.classes, t.active_class);
    let j = find_key(g.classes, t.active_class)->0;
    let c = g.classes[j].1;
    crate::namemap::lemma_find_found(c.specs, t.active_spec);
    let k = find_key(c.specs, t.active_spec)->0;
    assert(sorted_keys(g.classes));
    assert(sorted_keys(c.specs));
    lemma_update_value_same_key(c.specs, k, s, t.active_spec);
    let c2 = ClassV { specs: c.specs.update(k, (c.specs[k].0, s)), ..c };
    lemma_update_value_same_key(g.classes, j, c2, t.active_class);
    let g2 = GameV { classes: g.classes.update(j, (g.classes[j].0, c2)), ..g };
    lemma_update_value_same_key(t.games, i, g2, t.active_game);
}

/// A game added by a non-blank name is there, empty, and selected.
pub proof fn lemma_add_game_selects(t: ConfigTreeV, name: Seq<char>)
    requires
        sorted_keys(t.games),
        crate::text::trim_spec(name).len() > 0,
    ensures
        lookup(add_game_spec(t, name).games, crate::text::trim_spec(name)) == Some(
            GameV { path: Seq::empty(), classes: Seq::empty() },
        ),
        add_game_spec(t, name).active_game == crate::text::trim_spec(name),
        active_spec_of(add_game_spec(t, name)) is None,
{
    let n = crate::text::trim_spec(name);
    crate::namemap::lemma_insert_lookup(t.games, n, GameV { path: Seq::empty(), classes: Seq::empty() }, n);
    let after = add_game_spec(t, name);
    crate::namemap::lemma_find_found(Seq::<(Seq<char>, ClassV)>::empty(), after.active_class);
}


// ── Reading and setting the selection ───────────────────────────────────

/// The icon of the active class; empty when there is none.
pub open spec fn active_icon_spec(t: ConfigTreeV) -> Seq<char> {
    match lookup(t.games, t.active_game) {
        Some(g) => match lookup(g.classes, t.active_class) {
            Some(c) => c.icon,
            None => Seq::empty(),
        },
        None => Seq::empty(),
    }
}

pub fn active_class_icon(tree: &ConfigTree) -> (r: String)
    ensures
        r@ == active_icon_spec(tree@),
{
    match tree.games.get(tree.active_game.as_str()) {
        Some(g) => match g.classes.get(tree.active_class.as_str()) {
            Some(c) => c.icon.clone(),
            None => String::new(),
        },
        None => String::new(),
    }
}

/// The executable path configured for a game.
pub fn game_path(tree: &ConfigTree, game_name: &str) -> (r: Option<String>)
    ensures
        match r {
            Some(p) => lookup(tree@.games, game_name@) matches Some(g) && g.path == p@,
            None => lookup(tree@.games, game_name@) is None,
        },
{
    match tree.games.get(game_name) {
        Some(g) => Some(g.path.clone()),
        None => None,
    }
}

/// Choose the active game, class and spec by name.
pub fn set_active_profile(tree: &mut ConfigTree, game: &str, class: &str, spec: &str)
    ensures
        final(tree)@ == (ConfigTreeV { active_game: game@, active_class: class@, active_spec: spec@, ..old(tree)@ }),
{
    tree.active_game = owned(game);
    tree.active_class = owned(class);
    tree.active_spec = owned(spec);
}

/// The active spec's macros (none without an active spec).
pub fn active_macros(tree: &ConfigTree) -> (r: Vec<Macro>)
    ensures
        crate::config::macros_view(r@) == match active_spec_of(tree@) {
            Some(s) => s.macros,
            None => Seq::empty(),
        },
{
    match get_active_spec(tree) {
        Some(s) => s.macros,
        None => {
            let v: Vec<Macro> = Vec::new();
            proof {
                assert(crate::config::macros_view(v@) =~= Seq::<crate::config::MacroV>::empty());
            }
            v
        },
    }
}

/// The active spec's pixel triggers (none without an active spec).
pub fn active_pixel_triggers(tree: &ConfigTree) -> (r: Vec<PixelTrigger>)
    ensures
        crate::config::triggers_view(r@) == match active_spec_of(tree@) {
            Some(s) => s.pixel_triggers,
            None => Seq::empty(),
        },
{
    match get_active_spec(tree) {
        Some(s) => s.pixel_triggers,
        None => {
            let v: Vec<PixelTrigger> = Vec::new();
            proof {
                assert(crate::config::triggers_view(v@) =~= Seq::<crate::config::PixelTriggerV>::empty());
            }
            v
        },
    }
}

/// The active spec's buff timers (none without an active spec).
pub fn active_buff_timers(tree: &ConfigTree) -> (r: Vec<BuffTimer>)
    ensures
        buffs_view(r@) == match active_spec_of(tree@) {
            Some(s) => s.buff_timers,
            None => Seq::empty(),
        },
{
    match get_active_spec(tree) {
        Some(s) => s.buff_timers,
        None => {
            let v: Vec<BuffTimer> = Vec::new();
            proof {
                assert(buffs_view(v@) =~= Seq::<BuffTimerV>::empty());
            }
            v
        },
    }
}

// ── Saving after edits settle ───────────────────────────────────────────

/// How long after the last edit the config is written, in milliseconds.
pub const SAVE_DELAY_MS: u64 = 300;

/// When the config is next due to be written, if an edit is pending.
pub struct SaveDebounce {
    pub deadline: Option<u64>,
}

impl SaveDebounce {
    pub fn new() -> (r: SaveDebounce)
        ensures
            r.deadline is None,
    {
        SaveDebounce { deadline: None }
    }

    /// An edit at time `now` (ms): the write is due a short delay later;
    /// each further edit pushes it back.
    pub fn edited(&mut self, now: u64)
        ensures
            final(self).deadline == Some(if now + SAVE_DELAY_MS <= u64::MAX {
                (now + SAVE_DELAY_MS) as u64
            } else {
                u64::MAX
            }),
    {
        self.deadline = Some(now.saturating_add(SAVE_DELAY_MS));
    }

    /// An immediate write makes the pending one moot.
    pub fn flushed(&mut self)
        ensures
            final(self).deadline is None,
    {
        self.deadline = None;
    }

    /// At time `now`: whether the pending write is due (it is then taken
    /// off, so it happens once).
    pub fn due(&mut self, now: u64) -> (r: bool)
        ensures
            (r, final(self).deadline) == due_spec(old(self).deadline, now),
    {
        match self.deadline {
            Some(d) => {
                if now >= d {
                    self.deadline = None;
                    true
                } else {
                    false
                }
            },
            None => false,
        }
    }
}

/// Whether a write pending until `deadline` is due at `now`, and what is
/// pending afterwards.
pub open spec fn due_spec(deadline: Option<u64>, now: u64) -> (bool, Option<u64>) {
    match deadline {
        Some(d) => if now >= d {
            (true, None)
        } else {
            (false, deadline)
        },
        None => (false, None),
    }
}

/// A pending write fires once: after it fired, no later check fires it
/// again until another edit.
pub proof fn lemma_save_fires_once(deadline: Option<u64>, now: u64, later: u64)
    requires
        due_spec(deadline, now).0,
    ensures
        !due_spec(due_spec(deadline, now).1, later).0,
{
}

} // verus!
