//! Key names: the engine's names for keyboard keys and mouse buttons, and
//! the Linux input event codes they stand for.

use vstd::prelude::*;
use crate::text::{lowercase, owned, str_eq, to_lowercase};

verus! {

/// The event code of a (lowercase) key name; 0 for a name that is not a key.
pub open spec fn key_code(n: Seq<char>) -> u16 {
    if n == "1"@ {
        2
    } else if n == "2"@ {
        3
    } else if n == "3"@ {
        4
    } else if n == "4"@ {
        5
    } else if n == "5"@ {
        6
    } else if n == "6"@ {
        7
    } else if n == "7"@ {
        8
    } else if n == "8"@ {
        9
    } else if n == "9"@ {
        10
    } else if n == "0"@ {
        11
    } else if n == "a"@ {
        30
    } else if n == "b"@ {
        48
    } else if n == "c"@ {
        46
    } else if n == "d"@ {
        32
    } else if n == "e"@ {
        18
    } else if n == "f"@ {
        33
    } else if n == "g"@ {
        34
    } else if n == "h"@ {
        35
    } else if n == "i"@ {
        23
    } else if n == "j"@ {
        36
    } else if n == "k"@ {
        37
    } else if n == "l"@ {
        38
    } else if n == "m"@ {
        50
    } else if n == "n"@ {
        49
    } else if n == "o"@ {
        24
    } else if n == "p"@ {
        25
    } else if n == "q"@ {
        16
    } else if n == "r"@ {
        19
    } else if n == "s"@ {
        31
    } else if n == "t"@ {
        20
    } else if n == "u"@ {
        22
    } else if n == "v"@ {
        47
    } else if n == "w"@ {
        17
    } else if n == "x"@ {
        45
    } else if n == "y"@ {
        21
    } else if n == "z"@ {
        44
    } else if n == "minus"@ {
        12
    } else if n == "equal"@ {
        13
    } else if n == "lbracket"@ {
        26
    } else if n == "rbracket"@ {
        27
    } else if n == "backslash"@ {
        43
    } else if n == "semicolon"@ {
        39
    } else if n == "apostrophe"@ {
        40
    } else if n == "grave"@ {
        41
    } else if n == "comma"@ {
        51
    } else if n == "period"@ {
        52
    } else if n == "slash"@ {
        53
    } else if n == "f1"@ {
        59
    } else if n == "f2"@ {
        60
    } else if n == "f3"@ {
        61
    } else if n == "f4"@ {
        62
    } else if n == "f5"@ {
        63
    } else if n == "f6"@ {
        64
    } else if n == "f7"@ {
        65
    } else if n == "f8"@ {
        66
    } else if n == "f9"@ {
        67
    } else if n == "f10"@ {
        68
    } else if n == "f11"@ {
        87
    } else if n == "f12"@ {
        88
    } else if n == "tab"@ {
        15
    } else if n == "enter"@ {
        28
    } else if n == "escape"@ {
        1
    } else if n == "backspace"@ {
        14
    } else if n == "space"@ {
        57
    } else if n == "delete"@ {
        111
    } else if n == "insert"@ {
        110
    } else if n == "home"@ {
        102
    } else if n == "end"@ {
        107
    } else if n == "pgup"@ {
        104
    } else if n == "pgdn"@ {
        109
    } else if n == "up"@ {
        103
    } else if n == "down"@ {
        108
    } else if n == "left"@ {
        105
    } else if n == "right"@ {
        106
    } else if n == "capslock"@ {
        58
    } else if n == "scrolllock"@ {
        70
    } else if n == "numlock"@ {
        69
    } else if n == "printscreen"@ {
        99
    } else if n == "pause"@ {
        119
    } else if n == "shift"@ {
        42
    } else if n == "ctrl"@ {
        29
    } else if n == "alt"@ {
        56
    } else if n == "win"@ {
        125
    } else if n == "lbutton"@ {
        272
    } else if n == "rbutton"@ {
        273
    } else if n == "mbutton"@ {
        274
    } else if n == "xbutton1"@ {
        275
    } else if n == "xbutton2"@ {
        276
    } else if n == "numpad0"@ {
        82
    } else if n == "numpad1"@ {
        79
    } else if n == "numpad2"@ {
        80
    } else if n == "numpad3"@ {
        81
    } else if n == "numpad4"@ {
        75
    } else if n == "numpad5"@ {
        76
    } else if n == "numpad6"@ {
        77
    } else if n == "numpad7"@ {
        71
    } else if n == "numpad8"@ {
        72
    } else if n == "numpad9"@ {
        73
    } else if n == "numpadenter"@ {
        96
    } else if n == "numpadadd"@ {
        78
    } else if n == "numpadsub"@ {
        74
    } else if n == "numpadmult"@ {
        55
    } else if n == "numpaddiv"@ {
        98
    } else if n == "numpaddot"@ {
        83
    } else {
        0
    }
}

/// The name of an event code; empty for a code that is no key.
pub open spec fn code_name(c: u16) -> Seq<char> {
    if c == 1 {
        "escape"@
    } else if c == 2 {
        "1"@
    } else if c == 3 {
        "2"@
    } else if c == 4 {
        "3"@
    } else if c == 5 {
        "4"@
    } else if c == 6 {
        "5"@
    } else if c == 7 {
        "6"@
    } else if c == 8 {
        "7"@
    } else if c == 9 {
        "8"@
    } else if c == 10 {
        "9"@
    } else if c == 11 {
        "0"@
    } else if c == 12 {
        "minus"@
    } else if c == 13 {
        "equal"@
    } else if c == 14 {
        "backspace"@
    } else if c == 15 {
        "tab"@
    } else if c == 16 {
        "q"@
    } else if c == 17 {
        "w"@
    } else if c == 18 {
        "e"@
    } else if c == 19 {
        "r"@
    } else if c == 20 {
        "t"@
    } else if c == 21 {
        "y"@
    } else if c == 22 {
        "u"@
    } else if c == 23 {
        "i"@
    } else if c == 24 {
        "o"@
    } else if c == 25 {
        "p"@
    } else if c == 26 {
        "lbracket"@
    } else if c == 27 {
        "rbracket"@
    } else if c == 28 {
        "enter"@
    } else if c == 29 {
        "ctrl"@
    } else if c == 30 {
        "a"@
    } else if c == 31 {
        "s"@
    } else if c == 32 {
        "d"@
    } else if c == 33 {
        "f"@
    } else if c == 34 {
        "g"@
    } else if c == 35 {
        "h"@
    } else if c == 36 {
        "j"@
    } else if c == 37 {
        "k"@
    } else if c == 38 {
        "l"@
    } else if c == 39 {
        "semicolon"@
    } else if c == 40 {
        "apostrophe"@
    } else if c == 41 {
        "grave"@
    } else if c == 42 {
        "shift"@
    } else if c == 43 {
        "backslash"@
    } else if c == 44 {
        "z"@
    } else if c == 45 {
        "x"@
    } else if c == 46 {
        "c"@
    } else if c == 47 {
        "v"@
    } else if c == 48 {
        "b"@
    } else if c == 49 {
        "n"@
    } else if c == 50 {
        "m"@
    } else if c == 51 {
        "comma"@
    } else if c == 52 {
        "period"@
    } else if c == 53 {
        "slash"@
    } else if c == 55 {
        "numpadmult"@
    } else if c == 56 {
        "alt"@
    } else if c == 57 {
        "space"@
    } else if c == 58 {
        "capslock"@
    } else if c == 59 {
        "f1"@
    } else if c == 60 {
        "f2"@
    } else if c == 61 {
        "f3"@
    } else if c == 62 {
        "f4"@
    } else if c == 63 {
        "f5"@
    } else if c == 64 {
        "f6"@
    } else if c == 65 {
        "f7"@
    } else if c == 66 {
        "f8"@
    } else if c == 67 {
        "f9"@
    } else if c == 68 {
        "f10"@
    } else if c == 69 {
        "numlock"@
    } else if c == 70 {
        "scrolllock"@
    } else if c == 71 {
        "numpad7"@
    } else if c == 72 {
        "numpad8"@
    } else if c == 73 {
        "numpad9"@
    } else if c == 74 {
        "numpadsub"@
    } else if c == 75 {
        "numpad4"@
    } else if c == 76 {
        "numpad5"@
    } else if c == 77 {
        "numpad6"@
    } else if c == 78 {
        "numpadadd"@
    } else if c == 79 {
        "numpad1"@
    } else if c == 80 {
        "numpad2"@
    } else if c == 81 {
        "numpad3"@
    } else if c == 82 {
        "numpad0"@
    } else if c == 83 {
        "numpaddot"@
    } else if c == 87 {
        "f11"@
    } else if c == 88 {
        "f12"@
    } else if c == 96 {
        "numpadenter"@
    } else if c == 98 {
        "numpaddiv"@
    } else if c == 99 {
        "printscreen"@
    } else if c == 102 {
        "home"@
    } else if c == 103 {
        "up"@
    } else if c == 104 {
        "pgup"@
    } else if c == 105 {
        "left"@
    } else if c == 106 {
        "right"@
    } else if c == 107 {
        "end"@
    } else if c == 108 {
        "down"@
    } else if c == 109 {
        "pgdn"@
    } else if c == 110 {
        "insert"@
    } else if c == 111 {
        "delete"@
    } else if c == 119 {
        "pause"@
    } else if c == 125 {
        "win"@
    } else if c == 272 {
        "lbutton"@
    } else if c == 273 {
        "rbutton"@
    } else if c == 274 {
        "mbutton"@
    } else if c == 275 {
        "xbutton1"@
    } else if c == 276 {
        "xbutton2"@
    } else {
        Seq::empty()
    }
}

fn key_code_of(n: &str) -> (r: u16)
    ensures
        r == key_code(n@),
{
    if str_eq(n, "1") {
        2
    } else if str_eq(n, "2") {
        3
    } else if str_eq(n, "3") {
        4
    } else if str_eq(n, "4") {
        5
    } else if str_eq(n, "5") {
        6
    } else if str_eq(n, "6") {
        7
    } else if str_eq(n, "7") {
        8
    } else if str_eq(n, "8") {
        9
    } else if str_eq(n, "9") {
        10
    } else if str_eq(n, "0") {
        11
    } else if str_eq(n, "a") {
        30
    } else if str_eq(n, "b") {
        48
    } else if str_eq(n, "c") {
        46
    } else if str_eq(n, "d") {
        32
    } else if str_eq(n, "e") {
        18
    } else if str_eq(n, "f") {
        33
    } else if str_eq(n, "g") {
        34
    } else if str_eq(n, "h") {
        35
    } else if str_eq(n, "i") {
        23
    } else if str_eq(n, "j") {
        36
    } else if str_eq(n, "k") {
        37
    } else if str_eq(n, "l") {
        38
    } else if str_eq(n, "m") {
        50
    } else if str_eq(n, "n") {
        49
    } else if str_eq(n, "o") {
        24
    } else if str_eq(n, "p") {
        25
    } else if str_eq(n, "q") {
        16
    } else if str_eq(n, "r") {
        19
    } else if str_eq(n, "s") {
        31
    } else if str_eq(n, "t") {
        20
    } else if str_eq(n, "u") {
        22
    } else if str_eq(n, "v") {
        47
    } else if str_eq(n, "w") {
        17
    } else if str_eq(n, "x") {
        45
    } else if str_eq(n, "y") {
        21
    } else if str_eq(n, "z") {
        44
    } else if str_eq(n, "minus") {
        12
    } else if str_eq(n, "equal") {
        13
    } else if str_eq(n, "lbracket") {
        26
    } else if str_eq(n, "rbracket") {
        27
    } else if str_eq(n, "backslash") {
        43
    } else if str_eq(n, "semicolon") {
        39
    } else if str_eq(n, "apostrophe") {
        40
    } else if str_eq(n, "grave") {
        41
    } else if str_eq(n, "comma") {
        51
    } else if str_eq(n, "period") {
        52
    } else if str_eq(n, "slash") {
        53
    } else if str_eq(n, "f1") {
        59
    } else if str_eq(n, "f2") {
        60
    } else if str_eq(n, "f3") {
        61
    } else if str_eq(n, "f4") {
        62
    } else if str_eq(n, "f5") {
        63
    } else if str_eq(n, "f6") {
        64
    } else if str_eq(n, "f7") {
        65
    } else if str_eq(n, "f8") {
        66
    } else if str_eq(n, "f9") {
        67
    } else if str_eq(n, "f10") {
        68
    } else if str_eq(n, "f11") {
        87
    } else if str_eq(n, "f12") {
        88
    } else if str_eq(n, "tab") {
        15
    } else if str_eq(n, "enter") {
        28
    } else if str_eq(n, "escape") {
        1
    } else if str_eq(n, "backspace") {
        14
    } else if str_eq(n, "space") {
        57
    } else if str_eq(n, "delete") {
        111
    } else if str_eq(n, "insert") {
        110
    } else if str_eq(n, "home") {
        102
    } else if str_eq(n, "end") {
        107
    } else if str_eq(n, "pgup") {
        104
    } else if str_eq(n, "pgdn") {
        109
    } else if str_eq(n, "up") {
        103
    } else if str_eq(n, "down") {
        108
    } else if str_eq(n, "left") {
        105
    } else if str_eq(n, "right") {
        106
    } else if str_eq(n, "capslock") {
        58
    } else if str_eq(n, "scrolllock") {
        70
    } else if str_eq(n, "numlock") {
        69
    } else if str_eq(n, "printscreen") {
        99
    } else if str_eq(n, "pause") {
        119
    } else if str_eq(n, "shift") {
        42
    } else if str_eq(n, "ctrl") {
        29
    } else if str_eq(n, "alt") {
        56
    } else if str_eq(n, "win") {
        125
    } else if str_eq(n, "lbutton") {
        272
    } else if str_eq(n, "rbutton") {
        273
    } else if str_eq(n, "mbutton") {
        274
    } else if str_eq(n, "xbutton1") {
        275
    } else if str_eq(n, "xbutton2") {
        276
    } else if str_eq(n, "numpad0") {
        82
    } else if str_eq(n, "numpad1") {
        79
    } else if str_eq(n, "numpad2") {
        80
    } else if str_eq(n, "numpad3") {
        81
    } else if str_eq(n, "numpad4") {
        75
    } else if str_eq(n, "numpad5") {
        76
    } else if str_eq(n, "numpad6") {
        77
    } else if str_eq(n, "numpad7") {
        71
    } else if str_eq(n, "numpad8") {
        72
    } else if str_eq(n, "numpad9") {
        73
    } else if str_eq(n, "numpadenter") {
        96
    } else if str_eq(n, "numpadadd") {
        78
    } else if str_eq(n, "numpadsub") {
        74
    } else if str_eq(n, "numpadmult") {
        55
    } else if str_eq(n, "numpaddiv") {
        98
    } else if str_eq(n, "numpaddot") {
        83
    } else {
        0
    }
}

/// Names and codes invert each other: the name of a key's code is the key's
/// (lowercase) name, so no two key names share a code.
pub proof fn lemma_key_code_round_trip(n: Seq<char>)
    requires
        key_code(n) != 0,
    ensures
        code_name(key_code(n)) == n,
{
}

/// The event codes that have a key name.
pub open spec fn is_key_code(c: u16) -> bool {
    (1 <= c <= 53)
    || (55 <= c <= 83)
    || (87 <= c <= 88)
    || c == 96
    || (98 <= c <= 99)
    || (102 <= c <= 111)
    || c == 119
    || c == 125
    || (272 <= c <= 276)
}

/// Every key name's code is one of the key codes.
pub proof fn lemma_key_code_is_key_code(n: Seq<char>)
    requires
        key_code(n) != 0,
    ensures
        is_key_code(key_code(n)),
{
}

/// A code that is not a key code has no name.
pub proof fn lemma_no_name_off_the_table(c: u16)
    requires
        !is_key_code(c),
    ensures
        code_name(c) == Seq::<char>::empty(),
{
}

/// Every code that has a name is that name's code, so names and codes
/// are in one-to-one correspondence.
#[verifier::rlimit(100)]
#[verifier::spinoff_prover]
pub proof fn lemma_code_name_round_trip(c: u16)
    requires
        code_name(c).len() > 0,
    ensures
        key_code(code_name(c)) == c,
{
    reveal_strlit("1");
    assert("1"@.len() == 1);
    assert("1"@[0] == '1');
    reveal_strlit("2");
    assert("2"@.len() == 1);
    assert("2"@[0] == '2');
    reveal_strlit("3");
    assert("3"@.len() == 1);
    assert("3"@[0] == '3');
    reveal_strlit("4");
    assert("4"@.len() == 1);
    assert("4"@[0] == '4');
    reveal_strlit("5");
    assert("5"@.len() == 1);
    assert("5"@[0] == '5');
    reveal_strlit("6");
    assert("6"@.len() == 1);
    assert("6"@[0] == '6');
    reveal_strlit("7");
    assert("7"@.len() == 1);
    assert("7"@[0] == '7');
    reveal_strlit("8");
    assert("8"@.len() == 1);
    assert("8"@[0] == '8');
    reveal_strlit("9");
    assert("9"@.len() == 1);
    assert("9"@[0] == '9');
    reveal_strlit("0");
    assert("0"@.len() == 1);
    assert("0"@[0] == '0');
    reveal_strlit("a");
    assert("a"@.len() == 1);
    assert("a"@[0] == 'a');
    reveal_strlit("b");
    assert("b"@.len() == 1);
    assert("b"@[0] == 'b');
    reveal_strlit("c");
    assert("c"@.len() == 1);
    assert("c"@[0] == 'c');
    reveal_strlit("d");
    assert("d"@.len() == 1);
    assert("d"@[0] == 'd');
    reveal_strlit("e");
    assert("e"@.len() == 1);
    assert("e"@[0] == 'e');
    reveal_strlit("f");
    assert("f"@.len() == 1);
    assert("f"@[0] == 'f');
    reveal_strlit("g");
    assert("g"@.len() == 1);
    assert("g"@[0] == 'g');
    reveal_strlit("h");
    assert("h"@.len() == 1);
    assert("h"@[0] == 'h');
    reveal_strlit("i");
    assert("i"@.len() == 1);
    assert("i"@[0] == 'i');
    reveal_strlit("j");
    assert("j"@.len() == 1);
    assert("j"@[0] == 'j');
    reveal_strlit("k");
    assert("k"@.len() == 1);
    assert("k"@[0] == 'k');
    reveal_strlit("l");
    assert("l"@.len() == 1);
    assert("l"@[0] == 'l');
    reveal_strlit("m");
    assert("m"@.len() == 1);
    assert("m"@[0] == 'm');
    reveal_strlit("n");
    assert("n"@.len() == 1);
    assert("n"@[0] == 'n');
    reveal_strlit("o");
    assert("o"@.len() == 1);
    assert("o"@[0] == 'o');
    reveal_strlit("p");
    assert("p"@.len() == 1);
    assert("p"@[0] == 'p');
    reveal_strlit("q");
    assert("q"@.len() == 1);
    assert("q"@[0] == 'q');
    reveal_strlit("r");
    assert("r"@.len() == 1);
    assert("r"@[0] == 'r');
    reveal_strlit("s");
    assert("s"@.len() == 1);
    assert("s"@[0] == 's');
    reveal_strlit("t");
    assert("t"@.len() == 1);
    assert("t"@[0] == 't');
    reveal_strlit("u");
    assert("u"@.len() == 1);
    assert("u"@[0] == 'u');
    reveal_strlit("v");
    assert("v"@.len() == 1);
    assert("v"@[0] == 'v');
    reveal_strlit("w");
    assert("w"@.len() == 1);
    assert("w"@[0] == 'w');
    reveal_strlit("x");
    assert("x"@.len() == 1);
    assert("x"@[0] == 'x');
    reveal_strlit("y");
    assert("y"@.len() == 1);
    assert("y"@[0] == 'y');
    reveal_strlit("z");
    assert("z"@.len() == 1);
    assert("z"@[0] == 'z');
    reveal_strlit("minus");
    assert("minus"@.len() == 5);
    assert("minus"@[0] == 'm');
    assert("minus"@[1] == 'i');
    assert("minus"@[2] == 'n');
    assert("minus"@[3] == 'u');
    assert("minus"@[4] == 's');
    reveal_strlit("equal");
    assert("equal"@.len() == 5);
    assert("equal"@[0] == 'e');
    assert("equal"@[1] == 'q');
    assert("equal"@[2] == 'u');
    assert("equal"@[3] == 'a');
    assert("equal"@[4] == 'l');
    reveal_strlit("lbracket");
    assert("lbracket"@.len() == 8);
    assert("lbracket"@[0] == 'l');
    assert("lbracket"@[1] == 'b');
    assert("lbracket"@[2] == 'r');
    assert("lbracket"@[3] == 'a');
    assert("lbracket"@[4] == 'c');
    assert("lbracket"@[5] == 'k');
    assert("lbracket"@[6] == 'e');
    assert("lbracket"@[7] == 't');
    reveal_strlit("rbracket");
    assert("rbracket"@.len() == 8);
    assert("rbracket"@[0] == 'r');
    assert("rbracket"@[1] == 'b');
    assert("rbracket"@[2] == 'r');
    assert("rbracket"@[3] == 'a');
    assert("rbracket"@[4] == 'c');
    assert("rbracket"@[5] == 'k');
    assert("rbracket"@[6] == 'e');
    assert("rbracket"@[7] == 't');
    reveal_strlit("backslash");
    assert("backslash"@.len() == 9);
    assert("backslash"@[0] == 'b');
    assert("backslash"@[1] == 'a');
    assert("backslash"@[2] == 'c');
    assert("backslash"@[3] == 'k');
    assert("backslash"@[4] == 's');
    assert("backslash"@[5] == 'l');
    assert("backslash"@[6] == 'a');
    assert("backslash"@[7] == 's');
    assert("backslash"@[8] == 'h');
    reveal_strlit("semicolon");
    assert("semicolon"@.len() == 9);
    assert("semicolon"@[0] == 's');
    assert("semicolon"@[1] == 'e');
    assert("semicolon"@[2] == 'm');
    assert("semicolon"@[3] == 'i');
    assert("semicolon"@[4] == 'c');
    assert("semicolon"@[5] == 'o');
    assert("semicolon"@[6] == 'l');
    assert("semicolon"@[7] == 'o');
    assert("semicolon"@[8] == 'n');
    reveal_strlit("apostrophe");
    assert("apostrophe"@.len() == 10);
    assert("apostrophe"@[0] == 'a');
    assert("apostrophe"@[1] == 'p');
    assert("apostrophe"@[2] == 'o');
    assert("apostrophe"@[3] == 's');
    assert("apostrophe"@[4] == 't');
    assert("apostrophe"@[5] == 'r');
    assert("apostrophe"@[6] == 'o');
    assert("apostrophe"@[7] == 'p');
    assert("apostrophe"@[8] == 'h');
    assert("apostrophe"@[9] == 'e');
    reveal_strlit("grave");
    assert("grave"@.len() == 5);
    assert("grave"@[0] == 'g');
    assert("grave"@[1] == 'r');
    assert("grave"@[2] == 'a');
    assert("grave"@[3] == 'v');
    assert("grave"@[4] == 'e');
    reveal_strlit("comma");
    assert("comma"@.len() == 5);
    assert("comma"@[0] == 'c');
    assert("comma"@[1] == 'o');
    assert("comma"@[2] == 'm');
    assert("comma"@[3] == 'm');
    assert("comma"@[4] == 'a');
    reveal_strlit("period");
    assert("period"@.len() == 6);
    assert("period"@[0] == 'p');
    assert("period"@[1] == 'e');
    assert("period"@[2] == 'r');
    assert("period"@[3] == 'i');
    assert("period"@[4] == 'o');
    assert("period"@[5] == 'd');
    reveal_strlit("slash");
    assert("slash"@.len() == 5);
    assert("slash"@[0] == 's');
    assert("slash"@[1] == 'l');
    assert("slash"@[2] == 'a');
    assert("slash"@[3] == 's');
    assert("slash"@[4] == 'h');
    reveal_strlit("f1");
    assert("f1"@.len() == 2);
    assert("f1"@[0] == 'f');
    assert("f1"@[1] == '1');
    reveal_strlit("f2");
    assert("f2"@.len() == 2);
    assert("f2"@[0] == 'f');
    assert("f2"@[1] == '2');
    reveal_strlit("f3");
    assert("f3"@.len() == 2);
    assert("f3"@[0] == 'f');
    assert("f3"@[1] == '3');
    reveal_strlit("f4");
    assert("f4"@.len() == 2);
    assert("f4"@[0] == 'f');
    assert("f4"@[1] == '4');
    reveal_strlit("f5");
    assert("f5"@.len() == 2);
    assert("f5"@[0] == 'f');
    assert("f5"@[1] == '5');
    reveal_strlit("f6");
    assert("f6"@.len() == 2);
    assert("f6"@[0] == 'f');
    assert("f6"@[1] == '6');
    reveal_strlit("f7");
    assert("f7"@.len() == 2);
    assert("f7"@[0] == 'f');
    assert("f7"@[1] == '7');
    reveal_strlit("f8");
    assert("f8"@.len() == 2);
    assert("f8"@[0] == 'f');
    assert("f8"@[1] == '8');
    reveal_strlit("f9");
    assert("f9"@.len() == 2);
    assert("f9"@[0] == 'f');
    assert("f9"@[1] == '9');
    reveal_strlit("f10");
    assert("f10"@.len() == 3);
    assert("f10"@[0] == 'f');
    assert("f10"@[1] == '1');
    assert("f10"@[2] == '0');
    reveal_strlit("f11");
    assert("f11"@.len() == 3);
    assert("f11"@[0] == 'f');
    assert("f11"@[1] == '1');
    assert("f11"@[2] == '1');
    reveal_strlit("f12");
    assert("f12"@.len() == 3);
    assert("f12"@[0] == 'f');
    assert("f12"@[1] == '1');
    assert("f12"@[2] == '2');
    reveal_strlit("tab");
    assert("tab"@.len() == 3);
    assert("tab"@[0] == 't');
    assert("tab"@[1] == 'a');
    assert("tab"@[2] == 'b');
    reveal_strlit("enter");
    assert("enter"@.len() == 5);
    assert("enter"@[0] == 'e');
    assert("enter"@[1] == 'n');
    assert("enter"@[2] == 't');
    assert("enter"@[3] == 'e');
    assert("enter"@[4] == 'r');
    reveal_strlit("escape");
    assert("escape"@.len() == 6);
    assert("escape"@[0] == 'e');
    assert("escape"@[1] == 's');
    assert("escape"@[2] == 'c');
    assert("escape"@[3] == 'a');
    assert("escape"@[4] == 'p');
    assert("escape"@[5] == 'e');
    reveal_strlit("backspace");
    assert("backspace"@.len() == 9);
    assert("backspace"@[0] == 'b');
    assert("backspace"@[1] == 'a');
    assert("backspace"@[2] == 'c');
    assert("backspace"@[3] == 'k');
    assert("backspace"@[4] == 's');
    assert("backspace"@[5] == 'p');
    assert("backspace"@[6] == 'a');
    assert("backspace"@[7] == 'c');
    assert("backspace"@[8] == 'e');
    reveal_strlit("space");
    assert("space"@.len() == 5);
    assert("space"@[0] == 's');
    assert("space"@[1] == 'p');
    assert("space"@[2] == 'a');
    assert("space"@[3] == 'c');
    assert("space"@[4] == 'e');
    reveal_strlit("delete");
    assert("delete"@.len() == 6);
    assert("delete"@[0] == 'd');
    assert("delete"@[1] == 'e');
    assert("delete"@[2] == 'l');
    assert("delete"@[3] == 'e');
    assert("delete"@[4] == 't');
    assert("delete"@[5] == 'e');
    reveal_strlit("insert");
    assert("insert"@.len() == 6);
    assert("insert"@[0] == 'i');
    assert("insert"@[1] == 'n');
    assert("insert"@[2] == 's');
    assert("insert"@[3] == 'e');
    assert("insert"@[4] == 'r');
    assert("insert"@[5] == 't');
    reveal_strlit("home");
    assert("home"@.len() == 4);
    assert("home"@[0] == 'h');
    assert("home"@[1] == 'o');
    assert("home"@[2] == 'm');
    assert("home"@[3] == 'e');
    reveal_strlit("end");
    assert("end"@.len() == 3);
    assert("end"@[0] == 'e');
    assert("end"@[1] == 'n');
    assert("end"@[2] == 'd');
    reveal_strlit("pgup");
    assert("pgup"@.len() == 4);
    assert("pgup"@[0] == 'p');
    assert("pgup"@[1] == 'g');
    assert("pgup"@[2] == 'u');
    assert("pgup"@[3] == 'p');
    reveal_strlit("pgdn");
    assert("pgdn"@.len() == 4);
    assert("pgdn"@[0] == 'p');
    assert("pgdn"@[1] == 'g');
    assert("pgdn"@[2] == 'd');
    assert("pgdn"@[3] == 'n');
    reveal_strlit("up");
    assert("up"@.len() == 2);
    assert("up"@[0] == 'u');
    assert("up"@[1] == 'p');
    reveal_strlit("down");
    assert("down"@.len() == 4);
    assert("down"@[0] == 'd');
    assert("down"@[1] == 'o');
    assert("down"@[2] == 'w');
    assert("down"@[3] == 'n');
    reveal_strlit("left");
    assert("left"@.len() == 4);
    assert("left"@[0] == 'l');
    assert("left"@[1] == 'e');
    assert("left"@[2] == 'f');
    assert("left"@[3] == 't');
    reveal_strlit("right");
    assert("right"@.len() == 5);
    assert("right"@[0] == 'r');
    assert("right"@[1] == 'i');
    assert("right"@[2] == 'g');
    assert("right"@[3] == 'h');
    assert("right"@[4] == 't');
    reveal_strlit("capslock");
    assert("capslock"@.len() == 8);
    assert("capslock"@[0] == 'c');
    assert("capslock"@[1] == 'a');
    assert("capslock"@[2] == 'p');
    assert("capslock"@[3] == 's');
    assert("capslock"@[4] == 'l');
    assert("capslock"@[5] == 'o');
    assert("capslock"@[6] == 'c');
    assert("capslock"@[7] == 'k');
    reveal_strlit("scrolllock");
    assert("scrolllock"@.len() == 10);
    assert("scrolllock"@[0] == 's');
    assert("scrolllock"@[1] == 'c');
    assert("scrolllock"@[2] == 'r');
    assert("scrolllock"@[3] == 'o');
    assert("scrolllock"@[4] == 'l');
    assert("scrolllock"@[5] == 'l');
    assert("scrolllock"@[6] == 'l');
    assert("scrolllock"@[7] == 'o');
    assert("scrolllock"@[8] == 'c');
    assert("scrolllock"@[9] == 'k');
    reveal_strlit("numlock");
    assert("numlock"@.len() == 7);
    assert("numlock"@[0] == 'n');
    assert("numlock"@[1] == 'u');
    assert("numlock"@[2] == 'm');
    assert("numlock"@[3] == 'l');
    assert("numlock"@[4] == 'o');
    assert("numlock"@[5] == 'c');
    assert("numlock"@[6] == 'k');
    reveal_strlit("printscreen");
    assert("printscreen"@.len() == 11);
    assert("printscreen"@[0] == 'p');
    assert("printscreen"@[1] == 'r');
    assert("printscreen"@[2] == 'i');
    assert("printscreen"@[3] == 'n');
    assert("printscreen"@[4] == 't');
    assert("printscreen"@[5] == 's');
    assert("printscreen"@[6] == 'c');
    assert("printscreen"@[7] == 'r');
    assert("printscreen"@[8] == 'e');
    assert("printscreen"@[9] == 'e');
    assert("printscreen"@[10] == 'n');
    reveal_strlit("pause");
    assert("pause"@.len() == 5);
    assert("pause"@[0] == 'p');
    assert("pause"@[1] == 'a');
    assert("pause"@[2] == 'u');
    assert("pause"@[3] == 's');
    assert("pause"@[4] == 'e');
    reveal_strlit("shift");
    assert("shift"@.len() == 5);
    assert("shift"@[0] == 's');
    assert("shift"@[1] == 'h');
    assert("shift"@[2] == 'i');
    assert("shift"@[3] == 'f');
    assert("shift"@[4] == 't');
    reveal_strlit("ctrl");
    assert("ctrl"@.len() == 4);
    assert("ctrl"@[0] == 'c');
    assert("ctrl"@[1] == 't');
    assert("ctrl"@[2] == 'r');
    assert("ctrl"@[3] == 'l');
    reveal_strlit("alt");
    assert("alt"@.len() == 3);
    assert("alt"@[0] == 'a');
    assert("alt"@[1] == 'l');
    assert("alt"@[2] == 't');
    reveal_strlit("win");
    assert("win"@.len() == 3);
    assert("win"@[0] == 'w');
    assert("win"@[1] == 'i');
    assert("win"@[2] == 'n');
    reveal_strlit("lbutton");
    assert("lbutton"@.len() == 7);
    assert("lbutton"@[0] == 'l');
    assert("lbutton"@[1] == 'b');
    assert("lbutton"@[2] == 'u');
    assert("lbutton"@[3] == 't');
    assert("lbutton"@[4] == 't');
    assert("lbutton"@[5] == 'o');
    assert("lbutton"@[6] == 'n');
    reveal_strlit("rbutton");
    assert("rbutton"@.len() == 7);
    assert("rbutton"@[0] == 'r');
    assert("rbutton"@[1] == 'b');
    assert("rbutton"@[2] == 'u');
    assert("rbutton"@[3] == 't');
    assert("rbutton"@[4] == 't');
    assert("rbutton"@[5] == 'o');
    assert("rbutton"@[6] == 'n');
    reveal_strlit("mbutton");
    assert("mbutton"@.len() == 7);
    assert("mbutton"@[0] == 'm');
    assert("mbutton"@[1] == 'b');
    assert("mbutton"@[2] == 'u');
    assert("mbutton"@[3] == 't');
    assert("mbutton"@[4] == 't');
    assert("mbutton"@[5] == 'o');
    assert("mbutton"@[6] == 'n');
    reveal_strlit("xbutton1");
    assert("xbutton1"@.len() == 8);
    assert("xbutton1"@[0] == 'x');
    assert("xbutton1"@[1] == 'b');
    assert("xbutton1"@[2] == 'u');
    assert("xbutton1"@[3] == 't');
    assert("xbutton1"@[4] == 't');
    assert("xbutton1"@[5] == 'o');
    assert("xbutton1"@[6] == 'n');
    assert("xbutton1"@[7] == '1');
    reveal_strlit("xbutton2");
    assert("xbutton2"@.len() == 8);
    assert("xbutton2"@[0] == 'x');
    assert("xbutton2"@[1] == 'b');
    assert("xbutton2"@[2] == 'u');
    assert("xbutton2"@[3] == 't');
    assert("xbutton2"@[4] == 't');
    assert("xbutton2"@[5] == 'o');
    assert("xbutton2"@[6] == 'n');
    assert("xbutton2"@[7] == '2');
    reveal_strlit("numpad0");
    assert("numpad0"@.len() == 7);
    assert("numpad0"@[0] == 'n');
    assert("numpad0"@[1] == 'u');
    assert("numpad0"@[2] == 'm');
    assert("numpad0"@[3] == 'p');
    assert("numpad0"@[4] == 'a');
    assert("numpad0"@[5] == 'd');
    assert("numpad0"@[6] == '0');
    reveal_strlit("numpad1");
    assert("numpad1"@.len() == 7);
    assert("numpad1"@[0] == 'n');
    assert("numpad1"@[1] == 'u');
    assert("numpad1"@[2] == 'm');
    assert("numpad1"@[3] == 'p');
    assert("numpad1"@[4] == 'a');
    assert("numpad1"@[5] == 'd');
    assert("numpad1"@[6] == '1');
    reveal_strlit("numpad2");
    assert("numpad2"@.len() == 7);
    assert("numpad2"@[0] == 'n');
    assert("numpad2"@[1] == 'u');
    assert("numpad2"@[2] == 'm');
    assert("numpad2"@[3] == 'p');
    assert("numpad2"@[4] == 'a');
    assert("numpad2"@[5] == 'd');
    assert("numpad2"@[6] == '2');
    reveal_strlit("numpad3");
    assert("numpad3"@.len() == 7);
    assert("numpad3"@[0] == 'n');
    assert("numpad3"@[1] == 'u');
    assert("numpad3"@[2] == 'm');
    assert("numpad3"@[3] == 'p');
    assert("numpad3"@[4] == 'a');
    assert("numpad3"@[5] == 'd');
    assert("numpad3"@[6] == '3');
    reveal_strlit("numpad4");
    assert("numpad4"@.len() == 7);
    assert("numpad4"@[0] == 'n');
    assert("numpad4"@[1] == 'u');
    assert("numpad4"@[2] == 'm');
    assert("numpad4"@[3] == 'p');
    assert("numpad4"@[4] == 'a');
    assert("numpad4"@[5] == 'd');
    assert("numpad4"@[6] == '4');
    reveal_strlit("numpad5");
    assert("numpad5"@.len() == 7);
    assert("numpad5"@[0] == 'n');
    assert("numpad5"@[1] == 'u');
    assert("numpad5"@[2] == 'm');
    assert("numpad5"@[3] == 'p');
    assert("numpad5"@[4] == 'a');
    assert("numpad5"@[5] == 'd');
    assert("numpad5"@[6] == '5');
    reveal_strlit("numpad6");
    assert("numpad6"@.len() == 7);
    assert("numpad6"@[0] == 'n');
    assert("numpad6"@[1] == 'u');
    assert("numpad6"@[2] == 'm');
    assert("numpad6"@[3] == 'p');
    assert("numpad6"@[4] == 'a');
    assert("numpad6"@[5] == 'd');
    assert("numpad6"@[6] == '6');
    reveal_strlit("numpad7");
    assert("numpad7"@.len() == 7);
    assert("numpad7"@[0] == 'n');
    assert("numpad7"@[1] == 'u');
    assert("numpad7"@[2] == 'm');
    assert("numpad7"@[3] == 'p');
    assert("numpad7"@[4] == 'a');
    assert("numpad7"@[5] == 'd');
    assert("numpad7"@[6] == '7');
    reveal_strlit("numpad8");
    assert("numpad8"@.len() == 7);
    assert("numpad8"@[0] == 'n');
    assert("numpad8"@[1] == 'u');
    assert("numpad8"@[2] == 'm');
    assert("numpad8"@[3] == 'p');
    assert("numpad8"@[4] == 'a');
    assert("numpad8"@[5] == 'd');
    assert("numpad8"@[6] == '8');
    reveal_strlit("numpad9");
    assert("numpad9"@.len() == 7);
    assert("numpad9"@[0] == 'n');
    assert("numpad9"@[1] == 'u');
    assert("numpad9"@[2] == 'm');
    assert("numpad9"@[3] == 'p');
    assert("numpad9"@[4] == 'a');
    assert("numpad9"@[5] == 'd');
    assert("numpad9"@[6] == '9');
    reveal_strlit("numpadenter");
    assert("numpadenter"@.len() == 11);
    assert("numpadenter"@[0] == 'n');
    assert("numpadenter"@[1] == 'u');
    assert("numpadenter"@[2] == 'm');
    assert("numpadenter"@[3] == 'p');
    assert("numpadenter"@[4] == 'a');
    assert("numpadenter"@[5] == 'd');
    assert("numpadenter"@[6] == 'e');
    assert("numpadenter"@[7] == 'n');
    assert("numpadenter"@[8] == 't');
    assert("numpadenter"@[9] == 'e');
    assert("numpadenter"@[10] == 'r');
    reveal_strlit("numpadadd");
    assert("numpadadd"@.len() == 9);
    assert("numpadadd"@[0] == 'n');
    assert("numpadadd"@[1] == 'u');
    assert("numpadadd"@[2] == 'm');
    assert("numpadadd"@[3] == 'p');
    assert("numpadadd"@[4] == 'a');
    assert("numpadadd"@[5] == 'd');
    assert("numpadadd"@[6] == 'a');
    assert("numpadadd"@[7] == 'd');
    assert("numpadadd"@[8] == 'd');
    reveal_strlit("numpadsub");
    assert("numpadsub"@.len() == 9);
    assert("numpadsub"@[0] == 'n');
    assert("numpadsub"@[1] == 'u');
    assert("numpadsub"@[2] == 'm');
    assert("numpadsub"@[3] == 'p');
    assert("numpadsub"@[4] == 'a');
    assert("numpadsub"@[5] == 'd');
    assert("numpadsub"@[6] == 's');
    assert("numpadsub"@[7] == 'u');
    assert("numpadsub"@[8] == 'b');
    reveal_strlit("numpadmult");
    assert("numpadmult"@.len() == 10);
    assert("numpadmult"@[0] == 'n');
    assert("numpadmult"@[1] == 'u');
    assert("numpadmult"@[2] == 'm');
    assert("numpadmult"@[3] == 'p');
    assert("numpadmult"@[4] == 'a');
    assert("numpadmult"@[5] == 'd');
    assert("numpadmult"@[6] == 'm');
    assert("numpadmult"@[7] == 'u');
    assert("numpadmult"@[8] == 'l');
    assert("numpadmult"@[9] == 't');
    reveal_strlit("numpaddiv");
    assert("numpaddiv"@.len() == 9);
    assert("numpaddiv"@[0] == 'n');
    assert("numpaddiv"@[1] == 'u');
    assert("numpaddiv"@[2] == 'm');
    assert("numpaddiv"@[3] == 'p');
    assert("numpaddiv"@[4] == 'a');
    assert("numpaddiv"@[5] == 'd');
    assert("numpaddiv"@[6] == 'd');
    assert("numpaddiv"@[7] == 'i');
    assert("numpaddiv"@[8] == 'v');
    reveal_strlit("numpaddot");
    assert("numpaddot"@.len() == 9);
    assert("numpaddot"@[0] == 'n');
    assert("numpaddot"@[1] == 'u');
    assert("numpaddot"@[2] == 'm');
    assert("numpaddot"@[3] == 'p');
    assert("numpaddot"@[4] == 'a');
    assert("numpaddot"@[5] == 'd');
    assert("numpaddot"@[6] == 'd');
    assert("numpaddot"@[7] == 'o');
    assert("numpaddot"@[8] == 't');
}

/// The codes follow the kernel's keyboard layout: the digit row 1 to 9
/// and 0 has codes 2 to 11, and the letter rows q to p, a to l and z to m
/// have 16 to 25, 30 to 38 and 44 to 50, in order along each row.
pub proof fn lemma_keyboard_rows()
    ensures
        forall|i: int| 0 <= i < 10 ==> code_name((2 + i) as u16) == seq![seq!['1', '2', '3', '4', '5', '6', '7', '8', '9', '0'][i]],
        forall|i: int| 0 <= i < 10 ==> key_code(seq![seq!['1', '2', '3', '4', '5', '6', '7', '8', '9', '0'][i]]) == 2 + i,
        forall|i: int| 0 <= i < 10 ==> code_name((16 + i) as u16) == seq![seq!['q', 'w', 'e', 'r', 't', 'y', 'u', 'i', 'o', 'p'][i]],
        forall|i: int| 0 <= i < 10 ==> key_code(seq![seq!['q', 'w', 'e', 'r', 't', 'y', 'u', 'i', 'o', 'p'][i]]) == 16 + i,
        forall|i: int| 0 <= i < 9 ==> code_name((30 + i) as u16) == seq![seq!['a', 's', 'd', 'f', 'g', 'h', 'j', 'k', 'l'][i]],
        forall|i: int| 0 <= i < 9 ==> key_code(seq![seq!['a', 's', 'd', 'f', 'g', 'h', 'j', 'k', 'l'][i]]) == 30 + i,
        forall|i: int| 0 <= i < 7 ==> code_name((44 + i) as u16) == seq![seq!['z', 'x', 'c', 'v', 'b', 'n', 'm'][i]],
        forall|i: int| 0 <= i < 7 ==> key_code(seq![seq!['z', 'x', 'c', 'v', 'b', 'n', 'm'][i]]) == 44 + i,
{
    reveal_strlit("1");
    reveal_strlit("2");
    reveal_strlit("3");
    reveal_strlit("4");
    reveal_strlit("5");
    reveal_strlit("6");
    reveal_strlit("7");
    reveal_strlit("8");
    reveal_strlit("9");
    reveal_strlit("0");
    assert forall|i: int| 0 <= i < 10 implies code_name((2 + i) as u16) == seq![seq!['1', '2', '3', '4', '5', '6', '7', '8', '9', '0'][i]]
        && key_code(seq![seq!['1', '2', '3', '4', '5', '6', '7', '8', '9', '0'][i]]) == 2 + i by {
        lemma_code_name_round_trip((2 + i) as u16);
    }
    reveal_strlit("q");
    reveal_strlit("w");
    reveal_strlit("e");
    reveal_strlit("r");
    reveal_strlit("t");
    reveal_strlit("y");
    reveal_strlit("u");
    reveal_strlit("i");
    reveal_strlit("o");
    reveal_strlit("p");
    assert forall|i: int| 0 <= i < 10 implies code_name((16 + i) as u16) == seq![seq!['q', 'w', 'e', 'r', 't', 'y', 'u', 'i', 'o', 'p'][i]]
        && key_code(seq![seq!['q', 'w', 'e', 'r', 't', 'y', 'u', 'i', 'o', 'p'][i]]) == 16 + i by {
        lemma_code_name_round_trip((16 + i) as u16);
    }
    reveal_strlit("a");
    reveal_strlit("s");
    reveal_strlit("d");
    reveal_strlit("f");
    reveal_strlit("g");
    reveal_strlit("h");
    reveal_strlit("j");
    reveal_strlit("k");
    reveal_strlit("l");
    assert forall|i: int| 0 <= i < 9 implies code_name((30 + i) as u16) == seq![seq!['a', 's', 'd', 'f', 'g', 'h', 'j', 'k', 'l'][i]]
        && key_code(seq![seq!['a', 's', 'd', 'f', 'g', 'h', 'j', 'k', 'l'][i]]) == 30 + i by {
        lemma_code_name_round_trip((30 + i) as u16);
    }
    reveal_strlit("z");
    reveal_strlit("x");
    reveal_strlit("c");
    reveal_strlit("v");
    reveal_strlit("b");
    reveal_strlit("n");
    reveal_strlit("m");
    assert forall|i: int| 0 <= i < 7 implies code_name((44 + i) as u16) == seq![seq!['z', 'x', 'c', 'v', 'b', 'n', 'm'][i]]
        && key_code(seq![seq!['z', 'x', 'c', 'v', 'b', 'n', 'm'][i]]) == 44 + i by {
        lemma_code_name_round_trip((44 + i) as u16);
    }
}

/// Two key names with the same code are the same name.
pub proof fn lemma_key_codes_distinct(a: Seq<char>, b: Seq<char>)
    requires
        key_code(a) != 0,
        key_code(a) == key_code(b),
    ensures
        a == b,
{
    lemma_key_code_round_trip(a);
    lemma_key_code_round_trip(b);
}

/// The event code of a key name (matched case-insensitively); 0 when
/// the name is not a key.
pub fn name_to_vk(name: &str) -> (r: u16)
    ensures
        r == key_code(lowercase(name@)),
{
    let n = to_lowercase(name);
    key_code_of(n.as_str())
}

/// The name of an event code; empty for a code that is no key.
pub fn vk_to_name(vk: u16) -> (r: String)
    ensures
        r@ == code_name(vk),
{
    if vk == 1 {
        owned("escape")
    } else if vk == 2 {
        owned("1")
    } else if vk == 3 {
        owned("2")
    } else if vk == 4 {
        owned("3")
    } else if vk == 5 {
        owned("4")
    } else if vk == 6 {
        owned("5")
    } else if vk == 7 {
        owned("6")
    } else if vk == 8 {
        owned("7")
    } else if vk == 9 {
        owned("8")
    } else if vk == 10 {
        owned("9")
    } else if vk == 11 {
        owned("0")
    } else if vk == 12 {
        owned("minus")
    } else if vk == 13 {
        owned("equal")
    } else if vk == 14 {
        owned("backspace")
    } else if vk == 15 {
        owned("tab")
    } else if vk == 16 {
        owned("q")
    } else if vk == 17 {
        owned("w")
    } else if vk == 18 {
        owned("e")
    } else if vk == 19 {
        owned("r")
    } else if vk == 20 {
        owned("t")
    } else if vk == 21 {
        owned("y")
    } else if vk == 22 {
        owned("u")
    } else if vk == 23 {
        owned("i")
    } else if vk == 24 {
        owned("o")
    } else if vk == 25 {
        owned("p")
    } else if vk == 26 {
        owned("lbracket")
    } else if vk == 27 {
        owned("rbracket")
    } else if vk == 28 {
        owned("enter")
    } else if vk == 29 {
        owned("ctrl")
    } else if vk == 30 {
        owned("a")
    } else if vk == 31 {
        owned("s")
    } else if vk == 32 {
        owned("d")
    } else if vk == 33 {
        owned("f")
    } else if vk == 34 {
        owned("g")
    } else if vk == 35 {
        owned("h")
    } else if vk == 36 {
        owned("j")
    } else if vk == 37 {
        owned("k")
    } else if vk == 38 {
        owned("l")
    } else if vk == 39 {
        owned("semicolon")
    } else if vk == 40 {
        owned("apostrophe")
    } else if vk == 41 {
        owned("grave")
    } else if vk == 42 {
        owned("shift")
    } else if vk == 43 {
        owned("backslash")
    } else if vk == 44 {
        owned("z")
    } else if vk == 45 {
        owned("x")
    } else if vk == 46 {
        owned("c")
    } else if vk == 47 {
        owned("v")
    } else if vk == 48 {
        owned("b")
    } else if vk == 49 {
        owned("n")
    } else if vk == 50 {
        owned("m")
    } else if vk == 51 {
        owned("comma")
    } else if vk == 52 {
        owned("period")
    } else if vk == 53 {
        owned("slash")
    } else if vk == 55 {
        owned("numpadmult")
    } else if vk == 56 {
        owned("alt")
    } else if vk == 57 {
        owned("space")
    } else if vk == 58 {
        owned("capslock")
    } else if vk == 59 {
        owned("f1")
    } else if vk == 60 {
        owned("f2")
    } else if vk == 61 {
        owned("f3")
    } else if vk == 62 {
        owned("f4")
    } else if vk == 63 {
        owned("f5")
    } else if vk == 64 {
        owned("f6")
    } else if vk == 65 {
        owned("f7")
    } else if vk == 66 {
        owned("f8")
    } else if vk == 67 {
        owned("f9")
    } else if vk == 68 {
        owned("f10")
    } else if vk == 69 {
        owned("numlock")
    } else if vk == 70 {
        owned("scrolllock")
    } else if vk == 71 {
        owned("numpad7")
    } else if vk == 72 {
        owned("numpad8")
    } else if vk == 73 {
        owned("numpad9")
    } else if vk == 74 {
        owned("numpadsub")
    } else if vk == 75 {
        owned("numpad4")
    } else if vk == 76 {
        owned("numpad5")
    } else if vk == 77 {
        owned("numpad6")
    } else if vk == 78 {
        owned("numpadadd")
    } else if vk == 79 {
        owned("numpad1")
    } else if vk == 80 {
        owned("numpad2")
    } else if vk == 81 {
        owned("numpad3")
    } else if vk == 82 {
        owned("numpad0")
    } else if vk == 83 {
        owned("numpaddot")
    } else if vk == 87 {
        owned("f11")
    } else if vk == 88 {
        owned("f12")
    } else if vk == 96 {
        owned("numpadenter")
    } else if vk == 98 {
        owned("numpaddiv")
    } else if vk == 99 {
        owned("printscreen")
    } else if vk == 102 {
        owned("home")
    } else if vk == 103 {
        owned("up")
    } else if vk == 104 {
        owned("pgup")
    } else if vk == 105 {
        owned("left")
    } else if vk == 106 {
        owned("right")
    } else if vk == 107 {
        owned("end")
    } else if vk == 108 {
        owned("down")
    } else if vk == 109 {
        owned("pgdn")
    } else if vk == 110 {
        owned("insert")
    } else if vk == 111 {
        owned("delete")
    } else if vk == 119 {
        owned("pause")
    } else if vk == 125 {
        owned("win")
    } else if vk == 272 {
        owned("lbutton")
    } else if vk == 273 {
        owned("rbutton")
    } else if vk == 274 {
        owned("mbutton")
    } else if vk == 275 {
        owned("xbutton1")
    } else if vk == 276 {
        owned("xbutton2")
    } else {
        String::new()
    }
}

/// The names of the mouse buttons.
pub open spec fn mouse_name(n: Seq<char>) -> bool {
    n == "lbutton"@ || n == "rbutton"@ || n == "mbutton"@ || n == "xbutton1"@ || n == "xbutton2"@
}

/// Whether a key name (matched case-insensitively) is a mouse button.
pub fn is_mouse_key(name: &str) -> (r: bool)
    ensures
        r == mouse_name(lowercase(name@)),
{
    let n = to_lowercase(name);
    let n = n.as_str();
    str_eq(n, "lbutton") || str_eq(n, "rbutton") || str_eq(n, "mbutton") || str_eq(n, "xbutton1")
        || str_eq(n, "xbutton2")
}

/// Every key name, in ascending (byte) order.
pub open spec fn all_key_names() -> Seq<Seq<char>> {
    seq![
        "0"@,
        "1"@,
        "2"@,
        "3"@,
        "4"@,
        "5"@,
        "6"@,
        "7"@,
        "8"@,
        "9"@,
        "a"@,
        "alt"@,
        "apostrophe"@,
        "b"@,
        "backslash"@,
        "backspace"@,
        "c"@,
        "capslock"@,
        "comma"@,
        "ctrl"@,
        "d"@,
        "delete"@,
        "down"@,
        "e"@,
        "end"@,
        "enter"@,
        "equal"@,
        "escape"@,
        "f"@,
        "f1"@,
        "f10"@,
        "f11"@,
        "f12"@,
        "f2"@,
        "f3"@,
        "f4"@,
        "f5"@,
        "f6"@,
        "f7"@,
        "f8"@,
        "f9"@,
        "g"@,
        "grave"@,
        "h"@,
        "home"@,
        "i"@,
        "insert"@,
        "j"@,
        "k"@,
        "l"@,
        "lbracket"@,
        "lbutton"@,
        "left"@,
        "m"@,
        "mbutton"@,
        "minus"@,
        "n"@,
        "numlock"@,
        "numpad0"@,
        "numpad1"@,
        "numpad2"@,
        "numpad3"@,
        "numpad4"@,
        "numpad5"@,
        "numpad6"@,
        "numpad7"@,
        "numpad8"@,
        "numpad9"@,
        "numpadadd"@,
        "numpaddiv"@,
        "numpaddot"@,
        "numpadenter"@,
        "numpadmult"@,
        "numpadsub"@,
        "o"@,
        "p"@,
        "pause"@,
        "period"@,
        "pgdn"@,
        "pgup"@,
        "printscreen"@,
        "q"@,
        "r"@,
        "rbracket"@,
        "rbutton"@,
        "right"@,
        "s"@,
        "scrolllock"@,
        "semicolon"@,
        "shift"@,
        "slash"@,
        "space"@,
        "t"@,
        "tab"@,
        "u"@,
        "up"@,
        "v"@,
        "w"@,
        "win"@,
        "x"@,
        "xbutton1"@,
        "xbutton2"@,
        "y"@,
        "z"@,
    ]
}

fn key_name_at(i: usize) -> (r: &'static str)
    requires
        i < all_key_names().len(),
    ensures
        r@ == all_key_names()[i as int],
{
    if i == 0 {
        "0"
    } else if i == 1 {
        "1"
    } else if i == 2 {
        "2"
    } else if i == 3 {
        "3"
    } else if i == 4 {
        "4"
    } else if i == 5 {
        "5"
    } else if i == 6 {
        "6"
    } else if i == 7 {
        "7"
    } else if i == 8 {
        "8"
    } else if i == 9 {
        "9"
    } else if i == 10 {
        "a"
    } else if i == 11 {
        "alt"
    } else if i == 12 {
        "apostrophe"
    } else if i == 13 {
        "b"
    } else if i == 14 {
        "backslash"
    } else if i == 15 {
        "backspace"
    } else if i == 16 {
        "c"
    } else if i == 17 {
        "capslock"
    } else if i == 18 {
        "comma"
    } else if i == 19 {
        "ctrl"
    } else if i == 20 {
        "d"
    } else if i == 21 {
        "delete"
    } else if i == 22 {
        "down"
    } else if i == 23 {
        "e"
    } else if i == 24 {
        "end"
    } else if i == 25 {
        "enter"
    } else if i == 26 {
        "equal"
    } else if i == 27 {
        "escape"
    } else if i == 28 {
        "f"
    } else if i == 29 {
        "f1"
    } else if i == 30 {
        "f10"
    } else if i == 31 {
        "f11"
    } else if i == 32 {
        "f12"
    } else if i == 33 {
        "f2"
    } else if i == 34 {
        "f3"
    } else if i == 35 {
        "f4"
    } else if i == 36 {
        "f5"
    } else if i == 37 {
        "f6"
    } else if i == 38 {
        "f7"
    } else if i == 39 {
        "f8"
    } else if i == 40 {
        "f9"
    } else if i == 41 {
        "g"
    } else if i == 42 {
        "grave"
    } else if i == 43 {
        "h"
    } else if i == 44 {
        "home"
    } else if i == 45 {
        "i"
    } else if i == 46 {
        "insert"
    } else if i == 47 {
        "j"
    } else if i == 48 {
        "k"
    } else if i == 49 {
        "l"
    } else if i == 50 {
        "lbracket"
    } else if i == 51 {
        "lbutton"
    } else if i == 52 {
        "left"
    } else if i == 53 {
        "m"
    } else if i == 54 {
        "mbutton"
    } else if i == 55 {
        "minus"
    } else if i == 56 {
        "n"
    } else if i == 57 {
        "numlock"
    } else if i == 58 {
        "numpad0"
    } else if i == 59 {
        "numpad1"
    } else if i == 60 {
        "numpad2"
    } else if i == 61 {
        "numpad3"
    } else if i == 62 {
        "numpad4"
    } else if i == 63 {
        "numpad5"
    } else if i == 64 {
        "numpad6"
    } else if i == 65 {
        "numpad7"
    } else if i == 66 {
        "numpad8"
    } else if i == 67 {
        "numpad9"
    } else if i == 68 {
        "numpadadd"
    } else if i == 69 {
        "numpaddiv"
    } else if i == 70 {
        "numpaddot"
    } else if i == 71 {
        "numpadenter"
    } else if i == 72 {
        "numpadmult"
    } else if i == 73 {
        "numpadsub"
    } else if i == 74 {
        "o"
    } else if i == 75 {
        "p"
    } else if i == 76 {
        "pause"
    } else if i == 77 {
        "period"
    } else if i == 78 {
        "pgdn"
    } else if i == 79 {
        "pgup"
    } else if i == 80 {
        "printscreen"
    } else if i == 81 {
        "q"
    } else if i == 82 {
        "r"
    } else if i == 83 {
        "rbracket"
    } else if i == 84 {
        "rbutton"
    } else if i == 85 {
        "right"
    } else if i == 86 {
        "s"
    } else if i == 87 {
        "scrolllock"
    } else if i == 88 {
        "semicolon"
    } else if i == 89 {
        "shift"
    } else if i == 90 {
        "slash"
    } else if i == 91 {
        "space"
    } else if i == 92 {
        "t"
    } else if i == 93 {
        "tab"
    } else if i == 94 {
        "u"
    } else if i == 95 {
        "up"
    } else if i == 96 {
        "v"
    } else if i == 97 {
        "w"
    } else if i == 98 {
        "win"
    } else if i == 99 {
        "x"
    } else if i == 100 {
        "xbutton1"
    } else if i == 101 {
        "xbutton2"
    } else if i == 102 {
        "y"
    } else if i == 103 {
        "z"
    } else {
        "z"
    }
}

/// Every key name, sorted.
pub fn get_all_key_names() -> (r: Vec<String>)
    ensures
        r@.len() == all_key_names().len(),
        forall|i: int| 0 <= i < r@.len() ==> #[trigger] r@[i]@ == all_key_names()[i],
{
    let mut out: Vec<String> = Vec::new();
    let mut i: usize = 0;
    while i < 104
        invariant
            i <= 104,
            all_key_names().len() == 104,
            out@.len() == i,
            forall|k: int| 0 <= k < i ==> #[trigger] out@[k]@ == all_key_names()[k],
        decreases 104 - i,
    {
        out.push(owned(key_name_at(i)));
        i += 1;
    }
    out
}

} // verus!
