use macrotool::json::{
    is_window_event_line, parse_niri_event_focused_pid, parse_niri_focused_identity, parse_niri_focused_window,
    DmsPalette,
};

#[test]
fn extracts_focused_pid_from_a_real_windows_changed_payload() {
    let line = r#"{"WindowsChanged":{"windows":[{"id":42,"title":"Macrotool","app_id":"com.jaide.macrotool","pid":2744065,"workspace_id":1,"is_focused":true,"is_floating":false,"is_urgent":false},{"id":77,"title":"hermes","app_id":"com.mitchellh.ghostty","pid":1836845,"workspace_id":1,"is_focused":false,"is_floating":false,"is_urgent":false}]}}"#;
    assert_eq!(parse_niri_event_focused_pid(line), Some(2744065));
}

#[test]
fn returns_none_when_no_window_is_focused() {
    let line = r#"{"WindowsChanged":{"windows":[{"id":42,"title":"Macrotool","app_id":"com.jaide.macrotool","pid":2744065,"workspace_id":1,"is_focused":false,"is_floating":false,"is_urgent":false}]}}"#;
    assert_eq!(parse_niri_event_focused_pid(line), None);
}

#[test]
fn returns_none_for_unrelated_events() {
    let line = r#"{"WorkspacesChanged":{"workspaces":[]}}"#;
    assert_eq!(parse_niri_event_focused_pid(line), None);

    let line = r#"{"ConfigLoaded":{"failed":false}}"#;
    assert_eq!(parse_niri_event_focused_pid(line), None);
}

#[test]
fn returns_none_for_malformed_json() {
    assert_eq!(parse_niri_event_focused_pid("not json at all"), None);
    assert_eq!(parse_niri_event_focused_pid(""), None);
    assert_eq!(parse_niri_event_focused_pid(r#"{"WindowsChanged":"oops"}"#), None);
}

#[test]
fn focused_window_with_zero_pid_is_ignored() {
    let line = r#"{"WindowsChanged":{"windows":[{"id":42,"title":"Compositor","app_id":null,"pid":0,"workspace_id":null,"is_focused":true,"is_floating":false,"is_urgent":false}]}}"#;
    assert_eq!(parse_niri_event_focused_pid(line), None);
}

#[test]
fn focused_window_query_gives_its_pid_and_identity() {
    let out = br#"{"id":3,"title":"Shattered Empire","app_id":"steam_app_1","pid":777,"is_focused":true}"#;
    assert_eq!(parse_niri_focused_window(out), Some(777));
    let snap = parse_niri_focused_identity(out).expect("identity");
    assert_eq!(snap.pid, 777);
    assert_eq!(snap.title.as_deref(), Some("Shattered Empire"));
    assert_eq!(snap.app_id.as_deref(), Some("steam_app_1"));
    assert_eq!(parse_niri_focused_window(b"null"), None);
}

#[test]
fn only_window_events_wake_the_detector() {
    assert!(is_window_event_line("Windows changed: 3 windows\n"));
    assert!(is_window_event_line("  Window focus changed: 7"));
    assert!(!is_window_event_line("Workspaces changed"));
    assert!(!is_window_event_line("   \n"));
}

#[test]
fn dms_palette_uses_the_active_mode_and_preserves_overlay_contrast() {
    let palette = DmsPalette::from_json(
        r##"{
            "colors": {
                "light": {
                    "background": "#f7f9ff",
                    "on_background": "#151c24",
                    "primary": "#006497",
                    "on_primary": "#ffffff",
                    "outline": "#717782"
                },
                "dark": {
                    "background": "#0c141b",
                    "on_background": "#dbe3ed",
                    "primary": "#92ccff",
                    "on_primary": "#00344f",
                    "outline": "#8d929a"
                }
            }
        }"##,
        true,
    )
    .expect("parse DMS palette");

    assert_eq!(palette.window, "#0c141b");
    assert_eq!(palette.window_text, "#dbe3ed");
    assert_eq!(palette.highlight, "#92ccff");
    assert_eq!(palette.highlighted_text, "#00344f");
    assert_eq!(palette.mid, "#8d929a");

    let css = palette.app_css();
    assert!(css.contains(".macrotool-window"));
    assert!(css.contains("background-color: #0c141b"));
    assert!(css.contains("color: #dbe3ed"));
    assert!(css.contains("background-color: #92ccff"));
    assert!(css.contains("color: #00344f"));
}

#[test]
fn light_mode_and_missing_colours() {
    let src = r##"{"colors":{"light":{"background":"#fff","on_background":"#000","primary":"#00f","on_primary":"#fff","outline":"#888"}}}"##;
    assert_eq!(DmsPalette::from_json(src, false).unwrap().window, "#fff");
    assert!(DmsPalette::from_json(src, true).is_none());
    assert!(DmsPalette::from_json("not json", false).is_none());
}

#[test]
fn shell_palette_reads_the_flat_token_map() {
    let src = r##"{"surface_container":"#111","on_surface":"#eee","primary":"#0af","on_primary":"#001","outline":"#777"}"##;
    let p = DmsPalette::from_shell_json(src).expect("shell palette");
    assert_eq!(p.window, "#111");
    assert_eq!(p.window_text, "#eee");
    assert_eq!(p.mid, "#777");
}

#[test]
fn app_css_leaves_native_widget_styling_to_the_theme() {
    let p = DmsPalette::from_shell_json(
        r##"{"surface_container":"#111","on_surface":"#eee","primary":"#0af","on_primary":"#001","outline":"#777"}"##,
    )
    .unwrap();
    let css = p.app_css();
    assert!(css.contains(".macrotool-window,"));
    assert!(css.contains(".macrotool-window headerbar,"));
    assert!(css.contains("button.suggested-action"));
    assert!(!css.contains(".macrotool-window button,\n"));
    assert!(!css.contains(".macrotool-window entry"));
    assert!(!css.contains(".macrotool-window separator"));
}
