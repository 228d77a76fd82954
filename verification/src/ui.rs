//! The window's own decisions: what the tray asked for, what closing the
//! window does, and the key names a key press or a mouse button in the key
//! capture field stands for.

use vstd::prelude::*;
use crate::text::{lowercase, owned, str_eq, to_lowercase};

verus! {

// ── Tray commands ───────────────────────────────────────────────────────

/// What the tray icon's menu or a click on it asks of the window.
#[derive(Debug, Clone, Copy, PartialEq, Eq, Structural)]
pub enum TrayCommand {
    Show,
    Quit,
}

/// Tray commands waiting for the window, oldest first.
pub struct CommandQueue {
    items: Vec<TrayCommand>,
}

impl View for CommandQueue {
    type V = Seq<TrayCommand>;

    closed spec fn view(&self) -> Seq<TrayCommand> {
        self.items@
    }
}

impl CommandQueue {
    pub fn new() -> (r: CommandQueue)
        ensures
            r@ == Seq::<TrayCommand>::empty(),
    {
        CommandQueue { items: Vec::new() }
    }

    /// Queue a command behind the ones already waiting.
    pub fn request(&mut self, command: TrayCommand)
        ensures
            final(self)@ == old(self)@.push(command),
    {
        self.items.push(command);
    }

    /// The oldest waiting command, taken off the queue; each command is
    /// handed out once.
    pub fn take_command(&mut self) -> (r: Option<TrayCommand>)
        ensures
            old(self)@.len() == 0 ==> r is None && final(self)@ == old(self)@,
            old(self)@.len() > 0 ==> r == Some(old(self)@[0]) && final(self)@ == old(self)@.drop_first(),
    {
        if self.items.len() == 0 {
            return None;
        }
        let c = self.items.remove(0);
        proof {
            assert(self.items@ =~= old(self)@.drop_first());
        }
        Some(c)
    }
}

/// Commands queued one after another come out in the order they went in,
/// each once.
pub proof fn lemma_queue_fifo(q: Seq<TrayCommand>, a: TrayCommand, b: TrayCommand)
    requires
        q.len() == 0,
    ensures
        q.push(a).push(b)[0] == a,
        q.push(a).push(b).drop_first()[0] == b,
        q.push(a).push(b).drop_first().drop_first().len() == 0,
{
}

// ── Closing the window ──────────────────────────────────────────────────

/// What closing the main window does.
#[derive(Debug, Clone, Copy, PartialEq, Eq, Structural)]
pub enum CloseDisposition {
    HideToTray,
    Quit,
}

/// The window hides to the tray only when that is enabled and a tray is
/// there to bring it back from; otherwise closing quits.
pub fn close_disposition(minimize_to_tray: bool, tray_available: bool) -> (r: CloseDisposition)
    ensures
        r == if minimize_to_tray && tray_available {
            CloseDisposition::HideToTray
        } else {
            CloseDisposition::Quit
        },
{
    if minimize_to_tray && tray_available {
        CloseDisposition::HideToTray
    } else {
        CloseDisposition::Quit
    }
}

// ── Key capture ─────────────────────────────────────────────────────────

/// The key name a toolkit key name (lowercased) stands for; a name with no
/// alias of its own is kept.
pub open spec fn key_alias(n: Seq<char>) -> Seq<char> {
    if n == " "@ {
        "space"@
    } else if n == "return"@ {
        "enter"@
    } else if n == "page_up"@ || n == "prior"@ {
        "pgup"@
    } else if n == "page_down"@ || n == "next"@ {
        "pgdn"@
    } else if n == "caps_lock"@ {
        "capslock"@
    } else if n == "scroll_lock"@ {
        "scrolllock"@
    } else if n == "num_lock"@ {
        "numlock"@
    } else if n == "print"@ || n == "print_screen"@ {
        "printscreen"@
    } else if n == "shift_l"@ || n == "shift_r"@ {
        "shift"@
    } else if n == "control_l"@ || n == "control_r"@ || n == "control"@ {
        "ctrl"@
    } else if n == "alt_l"@ || n == "alt_r"@ {
        "alt"@
    } else if n == "super_l"@ || n == "super_r"@ || n == "super"@ || n == "meta_l"@ || n == "meta_r"@ {
        "win"@
    } else if n == "kp_0"@ {
        "numpad0"@
    } else if n == "kp_1"@ {
        "numpad1"@
    } else if n == "kp_2"@ {
        "numpad2"@
    } else if n == "kp_3"@ {
        "numpad3"@
    } else if n == "kp_4"@ {
        "numpad4"@
    } else if n == "kp_5"@ {
        "numpad5"@
    } else if n == "kp_6"@ {
        "numpad6"@
    } else if n == "kp_7"@ {
        "numpad7"@
    } else if n == "kp_8"@ {
        "numpad8"@
    } else if n == "kp_9"@ {
        "numpad9"@
    } else if n == "kp_enter"@ {
        "numpadenter"@
    } else if n == "kp_add"@ {
        "numpadadd"@
    } else if n == "kp_subtract"@ {
        "numpadsub"@
    } else if n == "kp_multiply"@ {
        "numpadmult"@
    } else if n == "kp_divide"@ {
        "numpaddiv"@
    } else if n == "kp_decimal"@ || n == "kp_delete"@ {
        "numpaddot"@
    } else {
        n
    }
}

/// The key name for a key the toolkit names `raw` (matched
/// case-insensitively).
pub fn normalize_key_name(raw: &str) -> (r: String)
    ensures
        r@ == key_alias(lowercase(raw@)),
{
    let l = to_lowercase(raw);
    let n = l.as_str();
    if str_eq(n, " ") {
        owned("space")
    } else if str_eq(n, "return") {
        owned("enter")
    } else if str_eq(n, "page_up") || str_eq(n, "prior") {
        owned("pgup")
    } else if str_eq(n, "page_down") || str_eq(n, "next") {
        owned("pgdn")
    } else if str_eq(n, "caps_lock") {
        owned("capslock")
    } else if str_eq(n, "scroll_lock") {
        owned("scrolllock")
    } else if str_eq(n, "num_lock") {
        owned("numlock")
    } else if str_eq(n, "print") || str_eq(n, "print_screen") {
        owned("printscreen")
    } else if str_eq(n, "shift_l") || str_eq(n, "shift_r") {
        owned("shift")
    } else if str_eq(n, "control_l") || str_eq(n, "control_r") || str_eq(n, "control") {
        owned("ctrl")
    } else if str_eq(n, "alt_l") || str_eq(n, "alt_r") {
        owned("alt")
    } else if str_eq(n, "super_l") || str_eq(n, "super_r") || str_eq(n, "super") || str_eq(n, "meta_l")
        || str_eq(n, "meta_r") {
        owned("win")
    } else if str_eq(n, "kp_0") {
        owned("numpad0")
    } else if str_eq(n, "kp_1") {
        owned("numpad1")
    } else if str_eq(n, "kp_2") {
        owned("numpad2")
    } else if str_eq(n, "kp_3") {
        owned("numpad3")
    } else if str_eq(n, "kp_4") {
        owned("numpad4")
    } else if str_eq(n, "kp_5") {
        owned("numpad5")
    } else if str_eq(n, "kp_6") {
        owned("numpad6")
    } else if str_eq(n, "kp_7") {
        owned("numpad7")
    } else if str_eq(n, "kp_8") {
        owned("numpad8")
    } else if str_eq(n, "kp_9") {
        owned("numpad9")
    } else if str_eq(n, "kp_enter") {
        owned("numpadenter")
    } else if str_eq(n, "kp_add") {
        owned("numpadadd")
    } else if str_eq(n, "kp_subtract") {
        owned("numpadsub")
    } else if str_eq(n, "kp_multiply") {
        owned("numpadmult")
    } else if str_eq(n, "kp_divide") {
        owned("numpaddiv")
    } else if str_eq(n, "kp_decimal") || str_eq(n, "kp_delete") {
        owned("numpaddot")
    } else {
        l
    }
}

/// The key name of a mouse button by its toolkit number: 1 left, 2
/// middle, 3 right, 8 and 9 the side buttons; empty for any other.
pub fn mouse_button_name(button: i32) -> (r: String)
    ensures
        r@ == if button == 1 {
            "lbutton"@
        } else if button == 2 {
            "mbutton"@
        } else if button == 3 {
            "rbutton"@
        } else if button == 8 {
            "xbutton1"@
        } else if button == 9 {
            "xbutton2"@
        } else {
            Seq::<char>::empty()
        },
{
    if button == 1 {
        owned("lbutton")
    } else if button == 2 {
        owned("mbutton")
    } else if button == 3 {
        owned("rbutton")
    } else if button == 8 {
        owned("xbutton1")
    } else if button == 9 {
        owned("xbutton2")
    } else {
        let r = String::new();
        proof {
            assert(r@ =~= Seq::<char>::empty());
        }
        r
    }
}

} // verus!
