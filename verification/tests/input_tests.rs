use macrotool::hook::{should_consume_hotkey_event, HookSharedState};
use macrotool::hotkey::{HotkeyInfo, HotkeyMode, Transition};

/// A hook state with one registered `rbutton` hold-hotkey and the engine
/// switched on; focus is left closed.
fn armed_state() -> HookSharedState {
    let mut state = HookSharedState::new();
    state.register_hotkey("rbutton", HotkeyMode::Hold);
    state.engine_active = true;
    state
}

fn set_focus(state: &mut HookSharedState, focused: bool) {
    state.game_in_focus = focused;
}

#[test]
fn active_macro_hotkey_suppresses_key_repeat_without_redispatching() {
    let mut hotkey = HotkeyInfo::new(HotkeyMode::Press);
    assert_eq!(hotkey.on_key_down(), Transition::Start);

    let repeat = hotkey.on_key_down();

    assert_eq!(repeat, Transition::Nothing);
    assert!(should_consume_hotkey_event(true, hotkey.is_active(), repeat));
}

#[test]
fn game_focused_press_is_consumed_and_arms_the_hotkey() {
    let mut state = armed_state();
    set_focus(&mut state, true);

    assert!(
        state.handle_hotkey_key("rbutton", true),
        "a press while the game is focused belongs to us"
    );
    assert!(state.is_active("rbutton"));
}

#[test]
fn release_while_gate_closed_still_advances_state_machine() {
    let mut state = armed_state();
    set_focus(&mut state, true);

    assert!(state.handle_hotkey_key("rbutton", true));
    assert!(state.is_active("rbutton"));

    set_focus(&mut state, false);

    assert!(!state.handle_hotkey_key("rbutton", false));
    assert!(!state.is_active("rbutton"));

    set_focus(&mut state, true);
    assert!(state.handle_hotkey_key("rbutton", true));
    assert!(state.is_active("rbutton"));
}

#[test]
fn press_while_gate_closed_does_not_start_a_macro() {
    let mut state = armed_state();
    set_focus(&mut state, false);

    assert!(!state.handle_hotkey_key("rbutton", true));
    assert!(!state.is_active("rbutton"), "desktop press must not arm the hotkey");
}

#[test]
fn unfocused_game_fails_closed_even_when_the_game_is_running() {
    let mut state = armed_state();
    state.game_present = true;
    set_focus(&mut state, false);

    assert!(
        !state.handle_hotkey_key("rbutton", true),
        "press must pass through to the focused app when the game is not focused"
    );
    assert!(
        !state.is_active("rbutton"),
        "press must not arm the hotkey when the game is not focused"
    );
}

#[test]
fn paused_engine_never_suppresses_even_with_the_game_focused() {
    let mut state = armed_state();
    set_focus(&mut state, true);
    state.paused = true;

    assert!(!state.handle_hotkey_key("rbutton", true));
    assert!(!state.is_active("rbutton"));
}

#[test]
fn inactive_engine_never_suppresses_even_with_the_game_focused() {
    let mut state = armed_state();
    set_focus(&mut state, true);
    state.engine_active = false;

    assert!(!state.handle_hotkey_key("rbutton", true));
    assert!(!state.is_active("rbutton"));
}

// ── Laws of the hotkey state machine, on concrete values ───────────────

#[test]
fn hold_hotkey_starts_on_press_and_stops_on_release() {
    let mut hk = HotkeyInfo::new(HotkeyMode::Hold);
    assert_eq!(hk.on_key_down(), Transition::Start);
    assert!(hk.is_active());
    assert_eq!(hk.on_key_up(), Transition::Stop);
    assert!(!hk.is_active());
}

#[test]
fn toggle_hotkey_pressed_twice_is_idle_again() {
    let mut hk = HotkeyInfo::new(HotkeyMode::Toggle);
    assert_eq!(hk.on_key_down(), Transition::Toggle);
    assert_eq!(hk.on_key_up(), Transition::Nothing);
    assert!(hk.is_active());
    assert_eq!(hk.on_key_down(), Transition::Stop);
    assert_eq!(hk.on_key_up(), Transition::Nothing);
    assert!(!hk.is_active());
}

#[test]
fn release_never_starts_a_macro() {
    for mode in [HotkeyMode::Hold, HotkeyMode::Toggle, HotkeyMode::Press] {
        let mut hk = HotkeyInfo::new(mode);
        assert_ne!(hk.on_key_up(), Transition::Start);
    }
}

#[test]
fn disabled_hotkey_passes_through() {
    let mut state = armed_state();
    set_focus(&mut state, true);
    state.set_enabled("rbutton", false);
    assert!(!state.handle_hotkey_key("rbutton", true));
    assert!(!state.is_active("rbutton"));
}

#[test]
fn unknown_key_passes_through() {
    let mut state = armed_state();
    set_focus(&mut state, true);
    assert!(!state.handle_hotkey_key("f7", true));
}

#[test]
fn emergency_stop_clears_every_hotkey() {
    let mut state = armed_state();
    state.register_hotkey("xbutton2", HotkeyMode::Toggle);
    set_focus(&mut state, true);
    assert!(state.handle_hotkey_key("rbutton", true));
    assert!(state.handle_hotkey_key("xbutton2", true));
    assert!(state.any_active());
    state.reset_all_states();
    assert!(!state.any_active());
}

#[test]
fn consumed_press_is_dispatched_once() {
    let mut state = armed_state();
    set_focus(&mut state, true);
    assert!(state.handle_hotkey_key("rbutton", true));
    let sent = state.take_dispatched();
    assert_eq!(sent.len(), 1);
    assert_eq!(sent[0].0, "rbutton");
    assert_eq!(sent[0].1, Transition::Start);
    assert!(state.take_dispatched().is_empty());
}

#[test]
fn sending_counter_balances() {
    let mut state = HookSharedState::new();
    state.acquire_sending();
    state.acquire_sending();
    assert!(state.sending);
    state.release_sending();
    assert!(state.sending);
    state.release_sending();
    assert!(!state.sending);
    assert_eq!(state.sending_count, 0);
}
