use macrotool::platform::{grabbed_event_route, plan_key_event, reemit_after_callback, EventRoute, KeyDispatch, ReadFailure, ReaderState};
use macrotool::procinfo::{
    cmdline_any_exe_arg_matches, cmdline_arg_for, exe_basename_matches, forget_identity, live_game_exe,
    niri_identity_matches, parse_child_pids, parse_cmdline_last_exe_basename, path_basename_ci, proc_entry_pid,
    remember_identity, same_identity, state_from_status, wanted_basename, DescendantWalk, DeviceIdentities,
    ProcSnapshot,
};

#[test]
fn hybrid_primary_mouse_button_uses_mouse_route() {
    assert_eq!(grabbed_event_route(true, true), EventRoute::Mouse);
}

#[test]
fn wine_cmdline_prefers_the_game_executable_over_the_loader() {
    let cmdline = b"/nix/store/wine64-preloader\0Z:\\Games\\SEBNS\\Client.exe\0--flag\0";
    assert_eq!(parse_cmdline_last_exe_basename(cmdline).as_deref(), Some("client.exe"));
}

fn check(ids: &DeviceIdentities, path: &str, uniq: &str, phys: &str, name: &str) -> bool {
    same_identity(ids, path, uniq, phys, name)
}

#[test]
fn reaper_unknown_path_is_treated_as_same() {
    let ids = DeviceIdentities::new();
    assert!(check(&ids, "/tmp/macrotool-test-unknown", "uniq-a", "phys-a", "name-a"));
}

#[test]
fn reaper_detects_uniq_change() {
    let mut ids = DeviceIdentities::new();
    let p = "/tmp/macrotool-test-uniq";
    remember_identity(&mut ids, p, "old-uniq", "phys-x", "name-x");
    assert!(check(&ids, p, "old-uniq", "phys-x", "name-x"));
    assert!(!check(&ids, p, "new-uniq", "phys-x", "name-x"));
}

#[test]
fn reaper_detects_phys_change() {
    let mut ids = DeviceIdentities::new();
    let p = "/tmp/macrotool-test-phys";
    remember_identity(&mut ids, p, "uniq-x", "old-phys", "name-x");
    assert!(check(&ids, p, "uniq-x", "old-phys", "name-x"));
    assert!(!check(&ids, p, "uniq-x", "new-phys", "name-x"));
}

#[test]
fn reaper_detects_name_change() {
    let mut ids = DeviceIdentities::new();
    let p = "/tmp/macrotool-test-name";
    remember_identity(&mut ids, p, "uniq-x", "phys-x", "SCYROX 8K Dongle");
    assert!(check(&ids, p, "uniq-x", "phys-x", "SCYROX 8K Dongle"));
    assert!(!check(&ids, p, "uniq-x", "phys-x", "SCYROX 8K Dongle v2"));
}

#[test]
fn reaper_handles_empty_identities() {
    let mut ids = DeviceIdentities::new();
    let p = "/tmp/macrotool-test-empty";
    remember_identity(&mut ids, p, "", "", "uinput-device");
    assert!(check(&ids, p, "", "", "uinput-device"));
    assert!(!check(&ids, p, "real-uniq", "", "uinput-device"));
}

#[test]
fn reaper_forgets_a_closed_device() {
    let mut ids = DeviceIdentities::new();
    let p = "/dev/input/event7";
    remember_identity(&mut ids, p, "u", "ph", "n");
    forget_identity(&mut ids, p);
    assert!(check(&ids, p, "other", "other", "other"));
}

#[test]
fn basename_takes_the_last_component_of_a_linux_path() {
    assert_eq!(path_basename_ci("/media/games/SEBNS/bin64/Client.exe"), "client.exe");
}

#[test]
fn basename_normalizes_windows_backslash_separators() {
    assert_eq!(path_basename_ci("Z:\\Games\\SEBNS\\bin64\\Client.exe"), "client.exe");
}

#[test]
fn basename_lowercases_the_result() {
    assert_eq!(path_basename_ci("CLIENT.EXE"), "client.exe");
}

#[test]
fn basename_trims_a_trailing_null_byte() {
    assert_eq!(path_basename_ci("Client.exe\0"), "client.exe");
}

#[test]
fn basename_handles_mixed_separators() {
    assert_eq!(path_basename_ci("/mnt/games\\SEBNS/bin64\\Client.EXE"), "client.exe");
}

#[test]
fn basename_of_empty_input_is_empty() {
    assert_eq!(path_basename_ci(""), "");
}

// ── exe_basename_matches over what /proc showed ─────────────────────────

const OWN_PID: u32 = 4_242;

fn cmdline(args: &[&[u8]]) -> Vec<u8> {
    let mut buf: Vec<u8> = Vec::new();
    for arg in args {
        buf.extend_from_slice(arg);
        buf.push(0);
    }
    buf
}

fn snapshot(pid: u32, state: &str, args: &[&[u8]], exe: Option<&str>, children: Vec<ProcSnapshot>) -> ProcSnapshot {
    ProcSnapshot {
        pid,
        state: Some(state.to_string()),
        exe: exe.map(|e| e.to_string()),
        comm: None,
        cmdline: Some(cmdline(args)),
        children,
    }
}

fn unreadable(pid: u32) -> ProcSnapshot {
    ProcSnapshot { pid, state: None, exe: None, comm: None, cmdline: None, children: Vec::new() }
}

#[test]
fn exe_match_fails_closed_for_an_empty_wanted_basename() {
    let me = snapshot(OWN_PID + 1, "R", &[b"/usr/bin/macrotool"], Some("/usr/bin/macrotool"), Vec::new());
    assert!(!exe_basename_matches(&me, OWN_PID, ""));
}

#[test]
fn exe_match_fails_closed_for_a_bogus_pid() {
    assert!(!exe_basename_matches(&unreadable(0), OWN_PID, "client.exe"));
    assert!(!exe_basename_matches(&unreadable(u32::MAX), OWN_PID, "client.exe"));
}

#[test]
fn cmdline_fallback_matches_when_exe_does_not() {
    let p = snapshot(
        42_001,
        "S",
        &[
            b"c:\\windows\\system32\\umu.exe",
            b"--use-gl=angle",
            b"Launcher.exe",
            b"Z:\\Games\\SEBNS\\bin64\\Client.exe",
        ],
        Some("/home/jaide/.local/share/Steam/compatibilitytools.d/DW-Proton-Latest/files/lib/wine/x86_64-unix/wine-preloader"),
        Vec::new(),
    );
    assert!(exe_basename_matches(&p, OWN_PID, "client.exe"));
}

#[test]
fn cmdline_fallback_matches_a_child_process() {
    let child = snapshot(
        50_002,
        "S",
        &[b"c:\\windows\\system32\\wine-preloader", b"Z:\\Games\\SEBNS\\bin64\\Client.exe"],
        Some("/nix/store/wine-preloader"),
        Vec::new(),
    );
    let parent = snapshot(
        50_001,
        "S",
        &[b"c:\\windows\\system32\\umu.exe", b"--use-gl=angle", b"Launcher.exe"],
        Some("/nix/store/wine-preloader"),
        vec![child],
    );
    assert!(exe_basename_matches(&parent, OWN_PID, "client.exe"));
}

#[test]
fn zombie_is_rejected_even_when_cmdline_matches() {
    let p = snapshot(60_001, "Z", &[b"Z:\\Games\\SEBNS\\bin64\\Client.exe"], Some("/nix/store/wine-preloader"), Vec::new());
    assert!(!exe_basename_matches(&p, OWN_PID, "client.exe"));
}

#[test]
fn exe_link_match_and_own_process_is_never_the_game() {
    let p = snapshot(7, "S", &[b"/games/Client.exe"], Some("/games/Client.exe"), Vec::new());
    assert!(exe_basename_matches(&p, OWN_PID, "client.exe"));
    assert!(!exe_basename_matches(&p, 7, "client.exe"));
}

#[test]
fn truncated_comm_matches_a_long_name() {
    let mut p = unreadable(9);
    p.state = Some("S".into());
    p.comm = Some("verylongclientn\n".into());
    assert!(exe_basename_matches(&p, OWN_PID, "verylongclientname.exe"));
    p.comm = Some("otherlongclient\n".into());
    assert!(!exe_basename_matches(&p, OWN_PID, "verylongclientname.exe"));
}

#[test]
fn status_text_gives_the_state_letter() {
    assert_eq!(state_from_status("Name:\tfake\nUmask:\t0022\nState:\tZ (zombie)\nTgid:\t1\n").as_deref(), Some("Z"));
    assert_eq!(state_from_status("Name:\tfake\n"), None);
}

#[test]
fn children_file_lists_pids() {
    assert_eq!(parse_child_pids("12 34 x 56\n"), vec![12, 34, 56]);
    assert!(parse_child_pids("").is_empty());
}

#[test]
fn proc_entries_name_processes_by_digits_only() {
    assert_eq!(proc_entry_pid("1234"), Some(1234));
    assert_eq!(proc_entry_pid("self"), None);
    assert_eq!(proc_entry_pid(""), None);
    assert_eq!(proc_entry_pid("99999999999"), None);
}

#[test]
fn any_exe_argument_can_name_the_game_loosely() {
    let data = cmdline(&[b"Z:\\Games\\SEBNS\\bin64\\Client.exe", b"--flag"]);
    assert!(cmdline_any_exe_arg_matches(&data, "client.exe"));
    assert!(cmdline_any_exe_arg_matches(&data, "client"));
    assert!(!cmdline_any_exe_arg_matches(&data, "launcher.exe"));
}

#[test]
fn the_matching_argument_comes_back_as_written() {
    let data = cmdline(&[b"umu.exe", b"Z:\\Games\\SEBNS\\bin64\\Client.exe"]);
    assert_eq!(cmdline_arg_for(&data, "client.exe").as_deref(), Some("Z:\\Games\\SEBNS\\bin64\\Client.exe"));
    assert_eq!(cmdline_arg_for(&data, "other.exe"), None);
}

#[test]
fn focused_window_is_not_the_game_when_no_game_is_active() {
    assert_eq!(wanted_basename("", Some("C:/Games/Client.exe")), None);
    assert_eq!(wanted_basename("", None), None);
}

#[test]
fn focused_window_is_not_the_game_when_the_game_path_is_empty() {
    assert_eq!(wanted_basename("SEBNS", Some("")), None);
    assert_eq!(wanted_basename("SEBNS", Some("C:/Games/Client.exe")).as_deref(), Some("client.exe"));
}

#[test]
fn compositor_identity_names_the_game() {
    assert!(niri_identity_matches(Some("Shattered Empire"), None, "Shattered Empire", "client.exe"));
    assert!(niri_identity_matches(Some("SEBNS - Main"), None, "sebns", "client.exe"));
    // Words of another game's title never count for the active one.
    assert!(!niri_identity_matches(Some("Shattered Empire"), Some("steam_app_1"), "Other", "other.exe"));
    assert!(niri_identity_matches(None, Some("client.exe"), "x", "Client.exe"));
    assert!(!niri_identity_matches(Some("Firefox"), Some("org.mozilla.firefox"), "SEBNS", "client.exe"));
}

#[test]
fn live_game_exe_prefers_the_exe_target() {
    let a = snapshot(10, "S", &[b"bash"], Some("/usr/bin/bash"), Vec::new());
    let b = snapshot(11, "S", &[b"x"], Some("/games/Client.exe"), Vec::new());
    let c = snapshot(12, "S", &[b"umu.exe", b"Z:\\G\\Client.exe"], Some("/nix/store/wine-preloader"), Vec::new());
    assert_eq!(live_game_exe(&[a, b], OWN_PID, "client.exe").as_deref(), Some("/games/Client.exe"));
    assert_eq!(live_game_exe(&[c], OWN_PID, "client.exe").as_deref(), Some("Z:\\G\\Client.exe"));
    assert_eq!(live_game_exe(&[], OWN_PID, "client.exe"), None);
}

#[test]
fn descendant_walk_admits_each_child_once() {
    let mut w = DescendantWalk::new(100, OWN_PID, 2);
    assert_eq!(w.next_parent(), Some((100, 0)));
    assert!(w.admit_child(101, 0, false));
    assert!(!w.admit_child(101, 0, false));
    assert!(!w.admit_child(100, 0, false));
    assert!(!w.admit_child(OWN_PID, 0, false));
    assert!(!w.admit_child(102, 0, true));
    assert_eq!(w.next_parent(), Some((101, 1)));
    assert!(w.admit_child(103, 1, false));
    assert_eq!(w.next_parent(), None);
}

// ── Routing key events ──────────────────────────────────────────────────

#[test]
fn route_table() {
    assert_eq!(grabbed_event_route(true, false), EventRoute::Keyboard);
    assert_eq!(grabbed_event_route(false, true), EventRoute::Passthrough);
    assert_eq!(grabbed_event_route(false, false), EventRoute::Passthrough);
}

#[test]
fn ungrabbed_mouse_buttons_are_observed_only() {
    // 0x111 is BTN_RIGHT.
    assert_eq!(plan_key_event(0x111, false, false), KeyDispatch::ObserveMouse("rbutton".into()));
    // 30 is KEY_A.
    assert_eq!(plan_key_event(30, false, true), KeyDispatch::Ignore);
    assert_eq!(plan_key_event(30, true, false), KeyDispatch::Reemit);
    assert_eq!(plan_key_event(30, true, true), KeyDispatch::Ask(EventRoute::Keyboard, "a".into(), false));
}

#[test]
fn mouse_release_is_always_reemitted() {
    assert!(reemit_after_callback(false, true, true));
    assert!(!reemit_after_callback(false, false, true));
    assert!(!reemit_after_callback(true, true, true));
    assert!(reemit_after_callback(true, false, false));
}

#[test]
fn reader_counts_errors_and_gives_up() {
    let mut r = ReaderState::new();
    assert_eq!(r.grab_change(true, true), Some(true));
    assert_eq!(r.grab_change(false, true), None);
    assert_eq!(r.note_read_error(true, false), ReadFailure::Idle);
    assert_eq!(r.note_read_error(false, false), ReadFailure::Retry(true));
    assert_eq!(r.note_read_error(false, false), ReadFailure::Retry(false));
    r.note_read_ok();
    assert_eq!(r.consecutive_errors, 0);
    let mut last = ReadFailure::Idle;
    for _ in 0..50 {
        last = r.note_read_error(false, false);
        if last == ReadFailure::Exit {
            break;
        }
    }
    assert_eq!(last, ReadFailure::Exit);
    assert_eq!(r.consecutive_errors, 50);
    let mut r2 = ReaderState::new();
    assert_eq!(r2.note_read_error(false, true), ReadFailure::Exit);
}

#[test]
fn dying_reader_releases_the_keys_it_held() {
    let mut r = ReaderState::new();
    r.note_key(30, true);
    r.note_key(0x111, true);
    r.note_key(30, true);
    r.note_key(31, true);
    r.note_key(31, false);
    let plan = r.release_plan();
    assert_eq!(plan.len(), 2);
    assert!(plan.contains(&("a".to_string(), false)));
    assert!(plan.contains(&("rbutton".to_string(), true)));
}
