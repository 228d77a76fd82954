use macrotool::ui::{close_disposition, mouse_button_name, normalize_key_name, CloseDisposition, CommandQueue, TrayCommand};

#[test]
fn commands_are_consumed_once() {
    let mut controller = CommandQueue::new();
    controller.request(TrayCommand::Show);
    controller.request(TrayCommand::Quit);
    assert!(matches!(controller.take_command(), Some(TrayCommand::Show)));
    assert!(matches!(controller.take_command(), Some(TrayCommand::Quit)));
    assert!(controller.take_command().is_none());
}

#[test]
fn close_only_hides_when_minimize_to_tray_is_enabled_and_tray_exists() {
    assert_eq!(close_disposition(true, true), CloseDisposition::HideToTray);
    assert_eq!(close_disposition(false, true), CloseDisposition::Quit);
    assert_eq!(close_disposition(true, false), CloseDisposition::Quit);
    assert_eq!(close_disposition(false, false), CloseDisposition::Quit);
}

#[test]
fn toolkit_key_names_become_key_names() {
    assert_eq!(normalize_key_name("Return"), "enter");
    assert_eq!(normalize_key_name("Page_Up"), "pgup");
    assert_eq!(normalize_key_name("Control_L"), "ctrl");
    assert_eq!(normalize_key_name("KP_7"), "numpad7");
    assert_eq!(normalize_key_name("Super_R"), "win");
    assert_eq!(normalize_key_name("F5"), "f5");
    assert_eq!(normalize_key_name("A"), "a");
    assert_eq!(normalize_key_name("Tab"), "tab");
}

#[test]
fn mouse_buttons_by_number() {
    assert_eq!(mouse_button_name(1), "lbutton");
    assert_eq!(mouse_button_name(3), "rbutton");
    assert_eq!(mouse_button_name(9), "xbutton2");
    assert_eq!(mouse_button_name(4), "");
}
