use macrotool::config::{normalize_overlay_position, parse_res, res_str, validate, ConfigTree, Resolution};
use macrotool::config_emit::build_doc;
use macrotool::config_parse::tree_from_document;
use macrotool::document::{dump, parse};
use macrotool::profile::{
    add_buff, add_child, add_game, apply_rename, delete_buff, delete_node, get_active_spec, select_node, TreeNode,
};

#[test]
fn parse_and_emit_roundtrip() {
    let input = r#"settings defaultDelay=50 darkMode=#true toggleKey="Delete"
active game=SEBNS class=Destoryer spec=Reaper
game SEBNS path="C:/Games/Client.exe" {
    class Destoryer {
        spec Reaper {
            macro name=rotation hotkey=rbutton delay=5 mode=toggle enabled=#true {
                key t
            }
        }
    }
}
"#;
    let doc = parse(input).unwrap();
    assert_eq!(doc.nodes.len(), 3);
    assert_eq!(doc.nodes[0].name, "settings");
    assert_eq!(doc.nodes[0].prop_int("defaultDelay", 0), 50);
    assert_eq!(doc.nodes[0].prop_bool("darkMode", false), true);
    assert_eq!(doc.nodes[1].prop_str("game", ""), "SEBNS");

    let out = dump(&doc);
    let doc2 = parse(&out).unwrap();
    assert_eq!(doc2.nodes.len(), 3);
}

#[test]
fn parse_v1_bools() {
    let input = "macro name=test enabled=#true holdMode=#false";
    let doc = parse(input).unwrap();
    assert_eq!(doc.nodes[0].prop_bool("enabled", false), true);
    assert_eq!(doc.nodes[0].prop_bool("holdMode", true), false);
}

const SAMPLE: &str = r#"settings defaultDelay=50 darkMode=#true toggleKey="Delete"
active game=SEBNS class=Destoryer spec=Reaper
game SEBNS path="C:/Games/Client.exe" {
    class Destoryer {
        spec Reaper {
            macro name=rotation hotkey=rbutton delay=5 mode=toggle enabled=#true {
                key t
            }
        }
    }
}
"#;

fn sample_tree() -> ConfigTree {
    tree_from_document(&parse(SAMPLE).unwrap())
}

#[test]
fn config_tree_reads_the_sample() {
    let t = sample_tree();
    assert_eq!(t.settings.default_delay, 50);
    assert!(t.settings.dark_mode);
    assert_eq!(t.active_game, "SEBNS");
    let spec = get_active_spec(&t).expect("active spec");
    assert_eq!(spec.macros.len(), 1);
    assert_eq!(spec.macros[0].name, "rotation");
    assert_eq!(spec.macros[0].keys, vec!["t".to_string()]);
}

#[test]
fn config_tree_survives_emit_and_reparse() {
    let t = sample_tree();
    let text = dump(&build_doc(&t));
    let t2 = tree_from_document(&parse(&text).unwrap());
    assert_eq!(t2.settings.default_delay, 50);
    assert_eq!(t2.active_game, "SEBNS");
    assert_eq!(t2.active_class, "Destoryer");
    assert_eq!(t2.active_spec, "Reaper");
    let spec = get_active_spec(&t2).expect("active spec");
    assert_eq!(spec.macros[0].hotkey, "rbutton");
    assert_eq!(spec.macros[0].delay, 5);
    assert_eq!(spec.macros[0].mode, "toggle");
}

#[test]
fn malformed_kdl_is_an_error() {
    assert!(parse("settings {").is_err());
}

#[test]
fn resolution_text_round_trips() {
    assert_eq!(parse_res("1920x1080"), Some(Resolution { w: 1920, h: 1080 }));
    assert_eq!(parse_res("1920"), None);
    assert_eq!(parse_res("axb"), None);
    assert_eq!(res_str(&Some(Resolution { w: 2560, h: 1440 })), "2560x1440");
    assert_eq!(res_str(&None), "");
}

#[test]
fn overlay_position_is_normalized() {
    assert_eq!(normalize_overlay_position("bottom-left"), "bottom-left");
    assert_eq!(normalize_overlay_position("middle"), "top-left");
}

#[test]
fn validate_names_unnamed_macros_and_fills_delays() {
    let mut t = tree_from_document(
        &parse("settings defaultDelay=42\nactive game=G class=C spec=S\ngame G { class C { spec S { macro hotkey=f } } }\n").unwrap(),
    );
    validate(&mut t);
    let spec = get_active_spec(&t).unwrap();
    assert_eq!(spec.macros[0].name, "Unnamed");
    assert_eq!(spec.macros[0].delay, 42);
}

// ── Editing the tree ────────────────────────────────────────────────────

#[test]
fn rename_moves_the_subtree_and_the_selection() {
    let mut t = sample_tree();
    apply_rename(&mut t, &TreeNode::Game("SEBNS".into()), "Renamed");
    assert!(t.games.get("SEBNS").is_none());
    assert!(t.games.get("Renamed").is_some());
    assert_eq!(t.active_game, "Renamed");
    assert_eq!(get_active_spec(&t).unwrap().macros.len(), 1);

    apply_rename(&mut t, &TreeNode::Spec("Renamed".into(), "Destoryer".into(), "Reaper".into()), "Sower");
    assert_eq!(t.active_spec, "Sower");
    assert!(get_active_spec(&t).is_some());
}

#[test]
fn delete_removes_the_node_and_clears_the_selection() {
    let mut t = sample_tree();
    delete_node(&mut t, &TreeNode::Class("SEBNS".into(), "Destoryer".into()));
    assert_eq!(t.active_class, "");
    assert_eq!(t.active_spec, "");
    assert!(t.games.get("SEBNS").unwrap().classes.get("Destoryer").is_none());
    delete_node(&mut t, &TreeNode::Game("SEBNS".into()));
    assert!(t.games.is_empty());
    assert_eq!(t.active_game, "");
}

#[test]
fn added_children_are_empty() {
    let mut t = sample_tree();
    add_child(&mut t, &TreeNode::Game("SEBNS".into()), "Mage");
    add_child(&mut t, &TreeNode::Class("SEBNS".into(), "Mage".into()), "Fire");
    select_node(&mut t, &TreeNode::Spec("SEBNS".into(), "Mage".into(), "Fire".into()));
    let spec = get_active_spec(&t).expect("new spec selected");
    assert!(spec.macros.is_empty() && spec.buff_timers.is_empty());
}

#[test]
fn adding_a_game_selects_it_and_a_blank_name_adds_nothing() {
    let mut t = sample_tree();
    assert!(!add_game(&mut t, "   "));
    assert_eq!(t.games.len(), 1);
    assert!(add_game(&mut t, "  New Game "));
    assert_eq!(t.active_game, "New Game");
    assert_eq!(t.active_class, "");
    assert_eq!(t.games.len(), 2);
}

#[test]
fn buffs_are_added_to_and_removed_from_the_active_spec() {
    let mut t = sample_tree();
    add_buff(&mut t);
    add_buff(&mut t);
    let spec = get_active_spec(&t).unwrap();
    assert_eq!(spec.buff_timers.len(), 2);
    assert_eq!(spec.buff_timers[0].name, "New Buff");
    assert_eq!(spec.buff_timers[0].duration, 5000);
    delete_buff(&mut t, 5);
    assert_eq!(get_active_spec(&t).unwrap().buff_timers.len(), 2);
    delete_buff(&mut t, 0);
    assert_eq!(get_active_spec(&t).unwrap().buff_timers.len(), 1);
}
