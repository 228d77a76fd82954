use macrotool::buff::{BuffState, ExpiryAction};
use macrotool::config::{BuffTimer, Macro, Pixel, PixelTrigger};
use macrotool::engine::{
    configured_hold_duration, cooldown_elapsed, hold_expired, hold_interval, keyboard_grab_needed, poll_rate,
    requires_screen_capture, DetectorState,
};
use std::time::Duration;

#[test]
fn manual_reminder_queues_a_sound_without_pressing_the_action_key() {
    let mut engine = BuffState::new();
    let mut buff = BuffTimer::default();
    buff.name = "Cooldown reminder".into();
    buff.action_key = "f".into();
    buff.duration = 60_000;

    engine.start_reminder(buff, 1_000);
    let queued = engine.peek().cloned().expect("queued reminder");
    assert_eq!(queued.action, ExpiryAction::SoundOnly);
}

#[test]
fn watched_key_buff_can_play_a_sound_when_its_countdown_expires() {
    let mut engine = BuffState::new();
    let mut buff = BuffTimer::default();
    buff.name = "BlueBuff".into();
    buff.action_key = "v".into();
    buff.duration = 60_000;
    buff.sound_on_expiry = true;

    engine.activate(buff, 1_000);
    let queued = engine.peek().cloned().expect("queued automatic buff");
    assert_eq!(queued.action, ExpiryAction::FireActionKey { play_sound: true });
}

#[test]
fn negative_buff_extension_does_not_wrap_to_an_enormous_duration() {
    let mut engine = BuffState::new();
    let mut buff = BuffTimer::default();
    buff.name = "Refreshable".into();
    buff.duration = 60_000;
    engine.activate(buff.clone(), 1_000);

    buff.on_refresh = "extend".into();
    buff.extend_ms = -1;
    engine.activate(buff, 1_000);

    let timers = engine.active_timers(1_000);
    let left = timers.iter().find(|(n, _)| n == "Refreshable").map(|(_, ms)| *ms).unwrap();
    assert!(left <= 60_000);
}

#[test]
fn zero_hold_duration_means_no_automatic_timeout() {
    assert_eq!(configured_hold_duration(0).map(Duration::from_secs), None);
}

#[test]
fn explicit_hold_duration_remains_supported() {
    assert_eq!(configured_hold_duration(90).map(Duration::from_secs), Some(Duration::from_secs(90)));
}

#[test]
fn empty_trigger_list_does_not_capture_the_screen() {
    let triggers: Vec<PixelTrigger> = Vec::new();
    assert!(!requires_screen_capture(&triggers));
}

// ── Own scenarios ───────────────────────────────────────────────────────

#[test]
fn negative_hold_duration_has_no_timeout() {
    assert_eq!(configured_hold_duration(-5), None);
}

#[test]
fn any_trigger_needs_the_screen() {
    let mut t = PixelTrigger::default();
    t.pixels.push(Pixel { x: 1, y: 2, color: "#ff0000".into(), variation: 10 });
    assert!(requires_screen_capture(&vec![t.clone()]));
    t.enabled = false;
    assert!(requires_screen_capture(&vec![t]));
}

#[test]
fn poll_rate_is_clamped() {
    assert_eq!(poll_rate(None), 250);
    assert_eq!(poll_rate(Some(1)), 10);
    assert_eq!(poll_rate(Some(5000)), 1000);
    assert_eq!(poll_rate(Some(120)), 120);
}

#[test]
fn cooldown_counts_from_the_last_firing() {
    assert!(cooldown_elapsed(500, 1_000, None));
    assert!(!cooldown_elapsed(500, 1_400, Some(1_000)));
    assert!(cooldown_elapsed(500, 1_500, Some(1_000)));
    assert!(cooldown_elapsed(-20, 1_000, Some(1_000)));
}

#[test]
fn hold_timeout_only_when_configured() {
    assert!(!hold_expired(None, 1_000_000));
    assert!(!hold_expired(Some(2), 2_000));
    assert!(hold_expired(Some(2), 2_001));
}

#[test]
fn hold_interval_has_a_floor() {
    assert!(hold_interval(0) >= 1);
    assert_eq!(hold_interval(40), 40);
}

#[test]
fn keyboard_grab_follows_keyboard_hotkeys() {
    let mut m = Macro::default();
    m.hotkey = "rbutton".into();
    m.enabled = true;
    assert!(!keyboard_grab_needed(&vec![m.clone()]));
    m.hotkey = "f".into();
    assert!(keyboard_grab_needed(&vec![m]));
}

#[test]
fn refreshing_a_buff_by_reset_restarts_its_countdown() {
    let mut engine = BuffState::new();
    let mut buff = BuffTimer::default();
    buff.name = "B".into();
    buff.duration = 10_000;
    engine.activate(buff.clone(), 0);
    engine.activate(buff, 4_000);
    let timers = engine.active_timers(4_000);
    assert_eq!(timers.len(), 1);
    assert_eq!(timers[0].1, 10_000);
}

#[test]
fn refreshing_a_buff_by_extend_adds_to_what_is_left() {
    let mut engine = BuffState::new();
    let mut buff = BuffTimer::default();
    buff.name = "B".into();
    buff.duration = 10_000;
    engine.activate(buff.clone(), 0);
    buff.on_refresh = "extend".into();
    buff.extend_ms = 3_000;
    engine.activate(buff, 4_000);
    assert_eq!(engine.active_timers(4_000)[0].1, 9_000);
}

#[test]
fn ignored_refresh_keeps_the_running_countdown() {
    let mut engine = BuffState::new();
    let mut buff = BuffTimer::default();
    buff.name = "B".into();
    buff.duration = 10_000;
    engine.activate(buff.clone(), 0);
    buff.on_refresh = "ignore".into();
    engine.activate(buff, 4_000);
    assert_eq!(engine.active_timers(4_000)[0].1, 6_000);
}

#[test]
fn expired_timer_fires_once_with_the_latest_generation() {
    let mut engine = BuffState::new();
    let mut buff = BuffTimer::default();
    buff.name = "B".into();
    buff.duration = 1_000;
    engine.activate(buff.clone(), 0);
    engine.activate(buff, 500);
    let (first, _) = engine.pop_expired(2_000);
    let fired = first.expect("the current countdown fires");
    assert_eq!(fired.expire, 1_500);
    let (second, _) = engine.pop_expired(2_000);
    assert!(second.is_none());
}

#[test]
fn detector_reports_only_changes() {
    let mut d = DetectorState::new();
    let r1 = d.check_window(true, false);
    assert_eq!(r1.active, Some(true));
    assert_eq!(r1.foreground, Some((true, true)));
    let r2 = d.check_window(true, false);
    assert_eq!(r2.active, None);
    assert_eq!(r2.foreground, None);
    let r3 = d.check_window(false, true);
    assert_eq!(r3.active, Some(false));
    assert_eq!(r3.foreground, Some((false, true)));
}
