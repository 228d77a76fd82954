use macrotool::config::Macro;
use macrotool::engine::MacroRegistry;
use macrotool::hook::HookSharedState;
use macrotool::hotkey::HotkeyMode;
use macrotool::json::{IdentityThrottle, NiriFocusSnapshot};
use macrotool::keys::{get_all_key_names, name_to_vk, vk_to_name};
use macrotool::pixels::check_pixels_batched;
use macrotool::procinfo::{
    focus_candidate, focus_decision, niri_identity_matches, remember_identity, DeviceIdentities, DevicePlan,
    DeviceScan,
};

const OWN: u32 = 4242;

#[test]
fn focus_fails_closed_for_unknown_or_own_focus() {
    assert!(!focus_candidate(true, 0, OWN));
    assert!(!focus_candidate(true, OWN, OWN));
    assert!(!focus_candidate(false, 7, OWN));
    assert!(focus_candidate(true, 7, OWN));
    // Even a hit does not count when focus cannot be checked.
    assert!(!focus_decision(true, 0, OWN, true, true, true, true));
    assert!(!focus_decision(true, OWN, OWN, true, false, false, false));
    assert!(!focus_decision(false, 7, OWN, true, false, false, false));
}

#[test]
fn focus_is_the_game_when_any_check_hits() {
    assert!(focus_decision(true, 7, OWN, true, false, false, false));
    assert!(focus_decision(true, 7, OWN, false, true, false, false));
    assert!(focus_decision(true, 7, OWN, false, false, true, false));
    assert!(focus_decision(true, 7, OWN, false, false, false, true));
    assert!(!focus_decision(true, 7, OWN, false, false, false, false));
}

#[test]
fn another_games_title_is_not_the_active_game() {
    // Active game "Other" (other.exe); the focused window is titled
    // "Shattered Empire" and nothing in /proc names other.exe.
    let niri_hit = niri_identity_matches(Some("Shattered Empire"), Some("steam_app_1"), "Other", "other.exe");
    assert!(!niri_hit);
    assert!(!focus_decision(true, 777, OWN, false, false, false, niri_hit));
}

fn snap(pid: u32, title: &str) -> NiriFocusSnapshot {
    NiriFocusSnapshot { pid, title: Some(title.to_string()), app_id: None }
}

#[test]
fn identity_throttle_answers_from_the_cache_for_half_a_second() {
    let mut t = IdentityThrottle::new();
    assert_eq!(t.cached_answer(0), None);
    assert_eq!(t.take_answer(100, Some(snap(5, "Game"))), Some(snap(5, "Game")));
    assert_eq!(t.cached_answer(300), Some(snap(5, "Game")));
    assert_eq!(t.cached_answer(599), Some(snap(5, "Game")));
    assert_eq!(t.cached_answer(600), None);
}

#[test]
fn identity_throttle_keeps_the_last_good_identity_on_failure() {
    let mut t = IdentityThrottle::new();
    assert_eq!(t.take_answer(0, None), None);
    t.take_answer(100, Some(snap(5, "Game")));
    // The compositor fails a second later: the last good identity answers.
    assert_eq!(t.take_answer(1_100, None), Some(snap(5, "Game")));
    // A new success replaces it.
    assert_eq!(t.take_answer(1_200, Some(snap(6, "Other"))), Some(snap(6, "Other")));
    assert_eq!(t.cached_answer(1_300), Some(snap(6, "Other")));
}

#[test]
fn key_names_and_codes_round_trip() {
    for name in get_all_key_names() {
        let code = name_to_vk(&name);
        assert_ne!(code, 0, "{name}");
        assert_eq!(vk_to_name(code), name);
    }
    assert_eq!(vk_to_name(name_to_vk("F1")), "f1");
    assert_eq!(name_to_vk("F1"), 59);
    assert_eq!(vk_to_name(54), "");
    assert_eq!(vk_to_name(0), "");
    assert_eq!(name_to_vk("nokey"), 0);
}

#[test]
fn pixel_batch_ignores_the_order_of_pixels() {
    // A 2x1 region at (10, 20): red, then green.
    let region = vec![0x00ff0000u32, 0x0000ff00u32];
    let a = vec![(10, 20, 0x00ff0000u32, 0), (11, 20, 0x000000ffu32, 0)];
    let b = vec![(11, 20, 0x000000ffu32, 0), (10, 20, 0x00ff0000u32, 0)];
    assert_eq!(check_pixels_batched(&a, "all", &region), false);
    assert_eq!(check_pixels_batched(&b, "all", &region), false);
    assert_eq!(check_pixels_batched(&a, "any", &region), true);
    assert_eq!(check_pixels_batched(&b, "any", &region), true);
}

fn mac(hotkey: &str, mode: &str, enabled: bool) -> Macro {
    let mut m = Macro::default();
    m.hotkey = hotkey.to_string();
    m.mode = mode.to_string();
    m.enabled = enabled;
    m
}

#[test]
fn setup_registers_each_hotkey_with_the_hooks() {
    let mut hooks = HookSharedState::new();
    hooks.register_hotkey("stale", HotkeyMode::Press);
    let mut reg = MacroRegistry::new();
    reg.setup(
        &mut hooks,
        vec![mac("F1", "hold", true), mac("", "press", true), mac("x", "toggle", false), mac("f1", "toggle", true)],
    );
    assert_eq!(hooks.hotkeys.len(), 2);
    assert!(hooks.hotkeys.get("stale").is_none());
    let f1 = hooks.hotkeys.get("f1").expect("f1 registered");
    // The last macro on a hotkey wins.
    assert_eq!(f1.mode(), HotkeyMode::Toggle);
    assert!(f1.is_enabled());
    let x = hooks.hotkeys.get("x").expect("x registered");
    assert_eq!(x.mode(), HotkeyMode::Toggle);
    assert!(!x.is_enabled());
    assert!(!reg.is_running("f1"));
    assert!(!reg.is_running("x"));
}

#[test]
fn a_changed_device_gets_its_reader_replaced() {
    let mut ids = DeviceIdentities::new();
    remember_identity(&mut ids, "/dev/input/event3", "uniq-a", "phys-a", "Keyboard");
    let mut scan = DeviceScan::new();
    let same = scan.plan(&ids, "/dev/input/event3", "uniq-a", "phys-a", "Keyboard", true, false, true);
    assert_eq!(same, DevicePlan::Skip);
    let changed = scan.plan(&ids, "/dev/input/event3", "uniq-b", "phys-a", "Keyboard", true, false, true);
    assert_eq!(changed, DevicePlan::ReplaceReader(true));
}
