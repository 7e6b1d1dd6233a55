//! Hotkey strings such as `ctrl+shift+k`: the key names and modifiers they
//! may hold and the key combination they stand for.
use vstd::prelude::*;
use crate::text::{
    lowercase, split_char, split_on, str_equal, to_lowercase, trim, trim_ws, views_of,
};

verus! {

/// A key that a hotkey can end in.
#[derive(Debug, Clone, Copy, PartialEq, Eq, Structural)]
pub enum KeyCode {
    Space,
    Enter,
    Tab,
    Escape,
    Backspace,
    Delete,
    F1,
    F2,
    F3,
    F4,
    F5,
    F6,
    F7,
    F8,
    F9,
    F10,
    F11,
    F12,
    KeyA,
    KeyB,
    KeyC,
    KeyD,
    KeyE,
    KeyF,
    KeyG,
    KeyH,
    KeyI,
    KeyJ,
    KeyK,
    KeyL,
    KeyM,
    KeyN,
    KeyO,
    KeyP,
    KeyQ,
    KeyR,
    KeyS,
    KeyT,
    KeyU,
    KeyV,
    KeyW,
    KeyX,
    KeyY,
    KeyZ,
    Digit0,
    Digit1,
    Digit2,
    Digit3,
    Digit4,
    Digit5,
    Digit6,
    Digit7,
    Digit8,
    Digit9,
}

/// The modifier keys held with a hotkey.
#[derive(Debug, Clone, Copy, PartialEq, Eq, Structural)]
pub struct Modifiers {
    pub control: bool,
    pub alt: bool,
    pub shift: bool,
    pub meta: bool,
}

/// A key combination: the modifiers (none when no modifier is held) and
/// the key.
#[derive(Debug, Clone, Copy, PartialEq, Eq, Structural)]
pub struct Hotkey {
    pub modifiers: Option<Modifiers>,
    pub code: KeyCode,
}

/// The key a (lowercase, trimmed) key name stands for, if it names one.
pub open spec fn key_code_named(s: Seq<char>) -> Option<KeyCode> {
    if s == "space"@ {
        Some(KeyCode::Space)
    } else if s == "enter"@ {
        Some(KeyCode::Enter)
    } else if s == "tab"@ {
        Some(KeyCode::Tab)
    } else if s == "escape"@ {
        Some(KeyCode::Escape)
    } else if s == "esc"@ {
        Some(KeyCode::Escape)
    } else if s == "backspace"@ {
        Some(KeyCode::Backspace)
    } else if s == "delete"@ {
        Some(KeyCode::Delete)
    } else if s == "del"@ {
        Some(KeyCode::Delete)
    } else if s == "f1"@ {
        Some(KeyCode::F1)
    } else if s == "f2"@ {
        Some(KeyCode::F2)
    } else if s == "f3"@ {
        Some(KeyCode::F3)
    } else if s == "f4"@ {
        Some(KeyCode::F4)
    } else if s == "f5"@ {
        Some(KeyCode::F5)
    } else if s == "f6"@ {
        Some(KeyCode::F6)
    } else if s == "f7"@ {
        Some(KeyCode::F7)
    } else if s == "f8"@ {
        Some(KeyCode::F8)
    } else if s == "f9"@ {
        Some(KeyCode::F9)
    } else if s == "f10"@ {
        Some(KeyCode::F10)
    } else if s == "f11"@ {
        Some(KeyCode::F11)
    } else if s == "f12"@ {
        Some(KeyCode::F12)
    } else if s == "a"@ {
        Some(KeyCode::KeyA)
    } else if s == "b"@ {
        Some(KeyCode::KeyB)
    } else if s == "c"@ {
        Some(KeyCode::KeyC)
    } else if s == "d"@ {
        Some(KeyCode::KeyD)
    } else if s == "e"@ {
        Some(KeyCode::KeyE)
    } else if s == "f"@ {
        Some(KeyCode::KeyF)
    } else if s == "g"@ {
        Some(KeyCode::KeyG)
    } else if s == "h"@ {
        Some(KeyCode::KeyH)
    } else if s == "i"@ {
        Some(KeyCode::KeyI)
    } else if s == "j"@ {
        Some(KeyCode::KeyJ)
    } else if s == "k"@ {
        Some(KeyCode::KeyK)
    } else if s == "l"@ {
        Some(KeyCode::KeyL)
    } else if s == "m"@ {
        Some(KeyCode::KeyM)
    } else if s == "n"@ {
        Some(KeyCode::KeyN)
    } else if s == "o"@ {
        Some(KeyCode::KeyO)
    } else if s == "p"@ {
        Some(KeyCode::KeyP)
    } else if s == "q"@ {
        Some(KeyCode::KeyQ)
    } else if s == "r"@ {
        Some(KeyCode::KeyR)
    } else if s == "s"@ {
        Some(KeyCode::KeyS)
    } else if s == "t"@ {
        Some(KeyCode::KeyT)
    } else if s == "u"@ {
        Some(KeyCode::KeyU)
    } else if s == "v"@ {
        Some(KeyCode::KeyV)
    } else if s == "w"@ {
        Some(KeyCode::KeyW)
    } else if s == "x"@ {
        Some(KeyCode::KeyX)
    } else if s == "y"@ {
        Some(KeyCode::KeyY)
    } else if s == "z"@ {
        Some(KeyCode::KeyZ)
    } else if s == "0"@ {
        Some(KeyCode::Digit0)
    } else if s == "1"@ {
        Some(KeyCode::Digit1)
    } else if s == "2"@ {
        Some(KeyCode::Digit2)
    } else if s == "3"@ {
        Some(KeyCode::Digit3)
    } else if s == "4"@ {
        Some(KeyCode::Digit4)
    } else if s == "5"@ {
        Some(KeyCode::Digit5)
    } else if s == "6"@ {
        Some(KeyCode::Digit6)
    } else if s == "7"@ {
        Some(KeyCode::Digit7)
    } else if s == "8"@ {
        Some(KeyCode::Digit8)
    } else if s == "9"@ {
        Some(KeyCode::Digit9)
    } else {
        None
    }
}

/// The key a (lowercase, trimmed) key name stands for: `space`, `enter`,
/// `tab`, `escape`/`esc`, `backspace`, `delete`/`del`, `f1` to `f12`, a
/// letter or a digit.
pub fn str_to_code(s: &str) -> (r: Option<KeyCode>)
    ensures
        r == key_code_named(s@),
{
    if str_equal(s, "space") {
        Some(KeyCode::Space)
    } else if str_equal(s, "enter") {
        Some(KeyCode::Enter)
    } else if str_equal(s, "tab") {
        Some(KeyCode::Tab)
    } else if str_equal(s, "escape") {
        Some(KeyCode::Escape)
    } else if str_equal(s, "esc") {
        Some(KeyCode::Escape)
    } else if str_equal(s, "backspace") {
        Some(KeyCode::Backspace)
    } else if str_equal(s, "delete") {
        Some(KeyCode::Delete)
    } else if str_equal(s, "del") {
        Some(KeyCode::Delete)
    } else if str_equal(s, "f1") {
        Some(KeyCode::F1)
    } else if str_equal(s, "f2") {
        Some(KeyCode::F2)
    } else if str_equal(s, "f3") {
        Some(KeyCode::F3)
    } else if str_equal(s, "f4") {
        Some(KeyCode::F4)
    } else if str_equal(s, "f5") {
        Some(KeyCode::F5)
    } else if str_equal(s, "f6") {
        Some(KeyCode::F6)
    } else if str_equal(s, "f7") {
        Some(KeyCode::F7)
    } else if str_equal(s, "f8") {
        Some(KeyCode::F8)
    } else if str_equal(s, "f9") {
        Some(KeyCode::F9)
    } else if str_equal(s, "f10") {
        Some(KeyCode::F10)
    } else if str_equal(s, "f11") {
        Some(KeyCode::F11)
    } else if str_equal(s, "f12") {
        Some(KeyCode::F12)
    } else if str_equal(s, "a") {
        Some(KeyCode::KeyA)
    } else if str_equal(s, "b") {
        Some(KeyCode::KeyB)
    } else if str_equal(s, "c") {
        Some(KeyCode::KeyC)
    } else if str_equal(s, "d") {
        Some(KeyCode::KeyD)
    } else if str_equal(s, "e") {
        Some(KeyCode::KeyE)
    } else if str_equal(s, "f") {
        Some(KeyCode::KeyF)
    } else if str_equal(s, "g") {
        Some(KeyCode::KeyG)
    } else if str_equal(s, "h") {
        Some(KeyCode::KeyH)
    } else if str_equal(s, "i") {
        Some(KeyCode::KeyI)
    } else if str_equal(s, "j") {
        Some(KeyCode::KeyJ)
    } else if str_equal(s, "k") {
        Some(KeyCode::KeyK)
    } else if str_equal(s, "l") {
        Some(KeyCode::KeyL)
    } else if str_equal(s, "m") {
        Some(KeyCode::KeyM)
    } else if str_equal(s, "n") {
        Some(KeyCode::KeyN)
    } else if str_equal(s, "o") {
        Some(KeyCode::KeyO)
    } else if str_equal(s, "p") {
        Some(KeyCode::KeyP)
    } else if str_equal(s, "q") {
        Some(KeyCode::KeyQ)
    } else if str_equal(s, "r") {
        Some(KeyCode::KeyR)
    } else if str_equal(s, "s") {
        Some(KeyCode::KeyS)
    } else if str_equal(s, "t") {
        Some(KeyCode::KeyT)
    } else if str_equal(s, "u") {
        Some(KeyCode::KeyU)
    } else if str_equal(s, "v") {
        Some(KeyCode::KeyV)
    } else if str_equal(s, "w") {
        Some(KeyCode::KeyW)
    } else if str_equal(s, "x") {
        Some(KeyCode::KeyX)
    } else if str_equal(s, "y") {
        Some(KeyCode::KeyY)
    } else if str_equal(s, "z") {
        Some(KeyCode::KeyZ)
    } else if str_equal(s, "0") {
        Some(KeyCode::Digit0)
    } else if str_equal(s, "1") {
        Some(KeyCode::Digit1)
    } else if str_equal(s, "2") {
        Some(KeyCode::Digit2)
    } else if str_equal(s, "3") {
        Some(KeyCode::Digit3)
    } else if str_equal(s, "4") {
        Some(KeyCode::Digit4)
    } else if str_equal(s, "5") {
        Some(KeyCode::Digit5)
    } else if str_equal(s, "6") {
        Some(KeyCode::Digit6)
    } else if str_equal(s, "7") {
        Some(KeyCode::Digit7)
    } else if str_equal(s, "8") {
        Some(KeyCode::Digit8)
    } else if str_equal(s, "9") {
        Some(KeyCode::Digit9)
    } else {
        None
    }
}

/// The name a key is written with in a hotkey string (the lowercase key
/// label: `space`, `enter`, `f1`, `a`, `0`, ...).
pub open spec fn key_name(k: KeyCode) -> Seq<char> {
    match k {
        KeyCode::Space => "space"@,
        KeyCode::Enter => "enter"@,
        KeyCode::Tab => "tab"@,
        KeyCode::Escape => "escape"@,
        KeyCode::Backspace => "backspace"@,
        KeyCode::Delete => "delete"@,
        KeyCode::F1 => "f1"@,
        KeyCode::F2 => "f2"@,
        KeyCode::F3 => "f3"@,
        KeyCode::F4 => "f4"@,
        KeyCode::F5 => "f5"@,
        KeyCode::F6 => "f6"@,
        KeyCode::F7 => "f7"@,
        KeyCode::F8 => "f8"@,
        KeyCode::F9 => "f9"@,
        KeyCode::F10 => "f10"@,
        KeyCode::F11 => "f11"@,
        KeyCode::F12 => "f12"@,
        KeyCode::KeyA => "a"@,
        KeyCode::KeyB => "b"@,
        KeyCode::KeyC => "c"@,
        KeyCode::KeyD => "d"@,
        KeyCode::KeyE => "e"@,
        KeyCode::KeyF => "f"@,
        KeyCode::KeyG => "g"@,
        KeyCode::KeyH => "h"@,
        KeyCode::KeyI => "i"@,
        KeyCode::KeyJ => "j"@,
        KeyCode::KeyK => "k"@,
        KeyCode::KeyL => "l"@,
        KeyCode::KeyM => "m"@,
        KeyCode::KeyN => "n"@,
        KeyCode::KeyO => "o"@,
        KeyCode::KeyP => "p"@,
        KeyCode::KeyQ => "q"@,
        KeyCode::KeyR => "r"@,
        KeyCode::KeyS => "s"@,
        KeyCode::KeyT => "t"@,
        KeyCode::KeyU => "u"@,
        KeyCode::KeyV => "v"@,
        KeyCode::KeyW => "w"@,
        KeyCode::KeyX => "x"@,
        KeyCode::KeyY => "y"@,
        KeyCode::KeyZ => "z"@,
        KeyCode::Digit0 => "0"@,
        KeyCode::Digit1 => "1"@,
        KeyCode::Digit2 => "2"@,
        KeyCode::Digit3 => "3"@,
        KeyCode::Digit4 => "4"@,
        KeyCode::Digit5 => "5"@,
        KeyCode::Digit6 => "6"@,
        KeyCode::Digit7 => "7"@,
        KeyCode::Digit8 => "8"@,
        KeyCode::Digit9 => "9"@,
    }
}

/// Key names mean the key they name: each key is read from its own name,
/// `esc` and `del` are also read as Escape and Delete, and no other string
/// names a key.
#[verifier::rlimit(100)]
pub proof fn lemma_key_names(s: Seq<char>, k: KeyCode)
    ensures
        key_code_named(key_name(k)) == Some(k),
        key_code_named("esc"@) == Some(KeyCode::Escape),
        key_code_named("del"@) == Some(KeyCode::Delete),
        key_code_named(s) == Some(k) ==> s == key_name(k) || (s == "esc"@ && k == KeyCode::Escape)
            || (s == "del"@ && k == KeyCode::Delete),
{
    reveal_strlit("space");
    reveal_strlit("enter");
    reveal_strlit("tab");
    reveal_strlit("escape");
    reveal_strlit("backspace");
    reveal_strlit("delete");
    reveal_strlit("f1");
    reveal_strlit("f2");
    reveal_strlit("f3");
    reveal_strlit("f4");
    reveal_strlit("f5");
    reveal_strlit("f6");
    reveal_strlit("f7");
    reveal_strlit("f8");
    reveal_strlit("f9");
    reveal_strlit("f10");
    reveal_strlit("f11");
    reveal_strlit("f12");
    reveal_strlit("a");
    reveal_strlit("b");
    reveal_strlit("c");
    reveal_strlit("d");
    reveal_strlit("e");
    reveal_strlit("f");
    reveal_strlit("g");
    reveal_strlit("h");
    reveal_strlit("i");
    reveal_strlit("j");
    reveal_strlit("k");
    reveal_strlit("l");
    reveal_strlit("m");
    reveal_strlit("n");
    reveal_strlit("o");
    reveal_strlit("p");
    reveal_strlit("q");
    reveal_strlit("r");
    reveal_strlit("s");
    reveal_strlit("t");
    reveal_strlit("u");
    reveal_strlit("v");
    reveal_strlit("w");
    reveal_strlit("x");
    reveal_strlit("y");
    reveal_strlit("z");
    reveal_strlit("0");
    reveal_strlit("1");
    reveal_strlit("2");
    reveal_strlit("3");
    reveal_strlit("4");
    reveal_strlit("5");
    reveal_strlit("6");
    reveal_strlit("7");
    reveal_strlit("8");
    reveal_strlit("9");
    reveal_strlit("esc");
    reveal_strlit("del");
    assert("space"@.len() == 5);
    assert("space"@[0] == 's');
    assert("space"@[1] == 'p');
    assert("space"@[2] == 'a');
    assert("space"@[3] == 'c');
    assert("space"@[4] == 'e');
    assert("enter"@.len() == 5);
    assert("enter"@[0] == 'e');
    assert("enter"@[1] == 'n');
    assert("enter"@[2] == 't');
    assert("enter"@[3] == 'e');
    assert("enter"@[4] == 'r');
    assert("tab"@.len() == 3);
    assert("tab"@[0] == 't');
    assert("tab"@[1] == 'a');
    assert("tab"@[2] == 'b');
    assert("escape"@.len() == 6);
    assert("escape"@[0] == 'e');
    assert("escape"@[1] == 's');
    assert("escape"@[2] == 'c');
    assert("escape"@[3] == 'a');
    assert("escape"@[4] == 'p');
    assert("escape"@[5] == 'e');
    assert("backspace"@.len() == 9);
    assert("backspace"@[0] == 'b');
    assert("backspace"@[1] == 'a');
    assert("backspace"@[2] == 'c');
    assert("backspace"@[3] == 'k');
    assert("backspace"@[4] == 's');
    assert("backspace"@[5] == 'p');
    assert("backspace"@[6] == 'a');
    assert("backspace"@[7] == 'c');
    assert("backspace"@[8] == 'e');
    assert("delete"@.len() == 6);
    assert("delete"@[0] == 'd');
    assert("delete"@[1] == 'e');
    assert("delete"@[2] == 'l');
    assert("delete"@[3] == 'e');
    assert("delete"@[4] == 't');
    assert("delete"@[5] == 'e');
    assert("f1"@.len() == 2);
    assert("f1"@[0] == 'f');
    assert("f1"@[1] == '1');
    assert("f2"@.len() == 2);
    assert("f2"@[0] == 'f');
    assert("f2"@[1] == '2');
    assert("f3"@.len() == 2);
    assert("f3"@[0] == 'f');
    assert("f3"@[1] == '3');
    assert("f4"@.len() == 2);
    assert("f4"@[0] == 'f');
    assert("f4"@[1] == '4');
    assert("f5"@.len() == 2);
    assert("f5"@[0] == 'f');
    assert("f5"@[1] == '5');
    assert("f6"@.len() == 2);
    assert("f6"@[0] == 'f');
    assert("f6"@[1] == '6');
    assert("f7"@.len() == 2);
    assert("f7"@[0] == 'f');
    assert("f7"@[1] == '7');
    assert("f8"@.len() == 2);
    assert("f8"@[0] == 'f');
    assert("f8"@[1] == '8');
    assert("f9"@.len() == 2);
    assert("f9"@[0] == 'f');
    assert("f9"@[1] == '9');
    assert("f10"@.len() == 3);
    assert("f10"@[0] == 'f');
    assert("f10"@[1] == '1');
    assert("f10"@[2] == '0');
    assert("f11"@.len() == 3);
    assert("f11"@[0] == 'f');
    assert("f11"@[1] == '1');
    assert("f11"@[2] == '1');
    assert("f12"@.len() == 3);
    assert("f12"@[0] == 'f');
    assert("f12"@[1] == '1');
    assert("f12"@[2] == '2');
    assert("a"@.len() == 1);
    assert("a"@[0] == 'a');
    assert("b"@.len() == 1);
    assert("b"@[0] == 'b');
    assert("c"@.len() == 1);
    assert("c"@[0] == 'c');
    assert("d"@.len() == 1);
    assert("d"@[0] == 'd');
    assert("e"@.len() == 1);
    assert("e"@[0] == 'e');
    assert("f"@.len() == 1);
    assert("f"@[0] == 'f');
    assert("g"@.len() == 1);
    assert("g"@[0] == 'g');
    assert("h"@.len() == 1);
    assert("h"@[0] == 'h');
    assert("i"@.len() == 1);
    assert("i"@[0] == 'i');
    assert("j"@.len() == 1);
    assert("j"@[0] == 'j');
    assert("k"@.len() == 1);
    assert("k"@[0] == 'k');
    assert("l"@.len() == 1);
    assert("l"@[0] == 'l');
    assert("m"@.len() == 1);
    assert("m"@[0] == 'm');
    assert("n"@.len() == 1);
    assert("n"@[0] == 'n');
    assert("o"@.len() == 1);
    assert("o"@[0] == 'o');
    assert("p"@.len() == 1);
    assert("p"@[0] == 'p');
    assert("q"@.len() == 1);
    assert("q"@[0] == 'q');
    assert("r"@.len() == 1);
    assert("r"@[0] == 'r');
    assert("s"@.len() == 1);
    assert("s"@[0] == 's');
    assert("t"@.len() == 1);
    assert("t"@[0] == 't');
    assert("u"@.len() == 1);
    assert("u"@[0] == 'u');
    assert("v"@.len() == 1);
    assert("v"@[0] == 'v');
    assert("w"@.len() == 1);
    assert("w"@[0] == 'w');
    assert("x"@.len() == 1);
    assert("x"@[0] == 'x');
    assert("y"@.len() == 1);
    assert("y"@[0] == 'y');
    assert("z"@.len() == 1);
    assert("z"@[0] == 'z');
    assert("0"@.len() == 1);
    assert("0"@[0] == '0');
    assert("1"@.len() == 1);
    assert("1"@[0] == '1');
    assert("2"@.len() == 1);
    assert("2"@[0] == '2');
    assert("3"@.len() == 1);
    assert("3"@[0] == '3');
    assert("4"@.len() == 1);
    assert("4"@[0] == '4');
    assert("5"@.len() == 1);
    assert("5"@[0] == '5');
    assert("6"@.len() == 1);
    assert("6"@[0] == '6');
    assert("7"@.len() == 1);
    assert("7"@[0] == '7');
    assert("8"@.len() == 1);
    assert("8"@[0] == '8');
    assert("9"@.len() == 1);
    assert("9"@[0] == '9');
    assert("esc"@.len() == 3);
    assert("esc"@[0] == 'e');
    assert("esc"@[1] == 's');
    assert("esc"@[2] == 'c');
    assert("del"@.len() == 3);
    assert("del"@[0] == 'd');
    assert("del"@[1] == 'e');
    assert("del"@[2] == 'l');
    assert(key_code_named("esc"@) == Some(KeyCode::Escape));
    assert(key_code_named("del"@) == Some(KeyCode::Delete));
    match k {
        KeyCode::Space => {
            assert(key_code_named("space"@) == Some(KeyCode::Space));
        },
        KeyCode::Enter => {
            assert(key_code_named("enter"@) == Some(KeyCode::Enter));
        },
        KeyCode::Tab => {
            assert(key_code_named("tab"@) == Some(KeyCode::Tab));
        },
        KeyCode::Escape => {
            assert(key_code_named("escape"@) == Some(KeyCode::Escape));
        },
        KeyCode::Backspace => {
            assert(key_code_named("backspace"@) == Some(KeyCode::Backspace));
        },
        KeyCode::Delete => {
            assert(key_code_named("delete"@) == Some(KeyCode::Delete));
        },
        KeyCode::F1 => {
            assert(key_code_named("f1"@) == Some(KeyCode::F1));
        },
        KeyCode::F2 => {
            assert(key_code_named("f2"@) == Some(KeyCode::F2));
        },
        KeyCode::F3 => {
            assert(key_code_named("f3"@) == Some(KeyCode::F3));
        },
        KeyCode::F4 => {
            assert(key_code_named("f4"@) == Some(KeyCode::F4));
        },
        KeyCode::F5 => {
            assert(key_code_named("f5"@) == Some(KeyCode::F5));
        },
        KeyCode::F6 => {
            assert(key_code_named("f6"@) == Some(KeyCode::F6));
        },
        KeyCode::F7 => {
            assert(key_code_named("f7"@) == Some(KeyCode::F7));
        },
        KeyCode::F8 => {
            assert(key_code_named("f8"@) == Some(KeyCode::F8));
        },
        KeyCode::F9 => {
            assert(key_code_named("f9"@) == Some(KeyCode::F9));
        },
        KeyCode::F10 => {
            assert(key_code_named("f10"@) == Some(KeyCode::F10));
        },
        KeyCode::F11 => {
            assert(key_code_named("f11"@) == Some(KeyCode::F11));
        },
        KeyCode::F12 => {
            assert(key_code_named("f12"@) == Some(KeyCode::F12));
        },
        KeyCode::KeyA => {
            assert(key_code_named("a"@) == Some(KeyCode::KeyA));
        },
        KeyCode::KeyB => {
            assert(key_code_named("b"@) == Some(KeyCode::KeyB));
        },
        KeyCode::KeyC => {
            assert(key_code_named("c"@) == Some(KeyCode::KeyC));
        },
        KeyCode::KeyD => {
            assert(key_code_named("d"@) == Some(KeyCode::KeyD));
        },
        KeyCode::KeyE => {
            assert(key_code_named("e"@) == Some(KeyCode::KeyE));
        },
        KeyCode::KeyF => {
            assert(key_code_named("f"@) == Some(KeyCode::KeyF));
        },
        KeyCode::KeyG => {
            assert(key_code_named("g"@) == Some(KeyCode::KeyG));
        },
        KeyCode::KeyH => {
            assert(key_code_named("h"@) == Some(KeyCode::KeyH));
        },
        KeyCode::KeyI => {
            assert(key_code_named("i"@) == Some(KeyCode::KeyI));
        },
        KeyCode::KeyJ => {
            assert(key_code_named("j"@) == Some(KeyCode::KeyJ));
        },
        KeyCode::KeyK => {
            assert(key_code_named("k"@) == Some(KeyCode::KeyK));
        },
        KeyCode::KeyL => {
            assert(key_code_named("l"@) == Some(KeyCode::KeyL));
        },
        KeyCode::KeyM => {
            assert(key_code_named("m"@) == Some(KeyCode::KeyM));
        },
        KeyCode::KeyN => {
            assert(key_code_named("n"@) == Some(KeyCode::KeyN));
        },
        KeyCode::KeyO => {
            assert(key_code_named("o"@) == Some(KeyCode::KeyO));
        },
        KeyCode::KeyP => {
            assert(key_code_named("p"@) == Some(KeyCode::KeyP));
        },
        KeyCode::KeyQ => {
            assert(key_code_named("q"@) == Some(KeyCode::KeyQ));
        },
        KeyCode::KeyR => {
            assert(key_code_named("r"@) == Some(KeyCode::KeyR));
        },
        KeyCode::KeyS => {
            assert(key_code_named("s"@) == Some(KeyCode::KeyS));
        },
        KeyCode::KeyT => {
            assert(key_code_named("t"@) == Some(KeyCode::KeyT));
        },
        KeyCode::KeyU => {
            assert(key_code_named("u"@) == Some(KeyCode::KeyU));
        },
        KeyCode::KeyV => {
            assert(key_code_named("v"@) == Some(KeyCode::KeyV));
        },
        KeyCode::KeyW => {
            assert(key_code_named("w"@) == Some(KeyCode::KeyW));
        },
        KeyCode::KeyX => {
            assert(key_code_named("x"@) == Some(KeyCode::KeyX));
        },
        KeyCode::KeyY => {
            assert(key_code_named("y"@) == Some(KeyCode::KeyY));
        },
        KeyCode::KeyZ => {
            assert(key_code_named("z"@) == Some(KeyCode::KeyZ));
        },
        KeyCode::Digit0 => {
            assert(key_code_named("0"@) == Some(KeyCode::Digit0));
        },
        KeyCode::Digit1 => {
            assert(key_code_named("1"@) == Some(KeyCode::Digit1));
        },
        KeyCode::Digit2 => {
            assert(key_code_named("2"@) == Some(KeyCode::Digit2));
        },
        KeyCode::Digit3 => {
            assert(key_code_named("3"@) == Some(KeyCode::Digit3));
        },
        KeyCode::Digit4 => {
            assert(key_code_named("4"@) == Some(KeyCode::Digit4));
        },
        KeyCode::Digit5 => {
            assert(key_code_named("5"@) == Some(KeyCode::Digit5));
        },
        KeyCode::Digit6 => {
            assert(key_code_named("6"@) == Some(KeyCode::Digit6));
        },
        KeyCode::Digit7 => {
            assert(key_code_named("7"@) == Some(KeyCode::Digit7));
        },
        KeyCode::Digit8 => {
            assert(key_code_named("8"@) == Some(KeyCode::Digit8));
        },
        KeyCode::Digit9 => {
            assert(key_code_named("9"@) == Some(KeyCode::Digit9));
        },
    }
}

/// No modifier held.
pub open spec fn no_modifiers() -> Modifiers {
    Modifiers { control: false, alt: false, shift: false, meta: false }
}

/// What one (trimmed) part of a hotkey string does to the modifiers and key
/// read so far: a modifier name adds that modifier, a key name sets the key
/// (a later one replaces an earlier one), and anything else rejects the
/// whole string.
pub open spec fn apply_part(state: (Modifiers, Option<KeyCode>), part: Seq<char>) -> Option<
    (Modifiers, Option<KeyCode>),
> {
    let (m, k) = state;
    if part == "ctrl"@ || part == "control"@ {
        Some((Modifiers { control: true, ..m }, k))
    } else if part == "alt"@ {
        Some((Modifiers { alt: true, ..m }, k))
    } else if part == "shift"@ {
        Some((Modifiers { shift: true, ..m }, k))
    } else if part == "meta"@ || part == "win"@ || part == "super"@ || part == "cmd"@ {
        Some((Modifiers { meta: true, ..m }, k))
    } else {
        match key_code_named(part) {
            Some(c) => Some((m, Some(c))),
            None => None,
        }
    }
}

/// The modifiers and key read from the parts, left to right, each trimmed.
pub open spec fn scan_parts(parts: Seq<Seq<char>>) -> Option<(Modifiers, Option<KeyCode>)>
    decreases parts.len(),
{
    if parts.len() == 0 {
        Some((no_modifiers(), None))
    } else {
        match scan_parts(parts.drop_last()) {
            Some(state) => apply_part(state, trim_ws(parts.last())),
            None => None,
        }
    }
}

/// The combination a hotkey string stands for: the string is lowercased
/// and split at `+`; it must name a key, and no modifier at all means none.
pub open spec fn hotkey_of(s: Seq<char>) -> Option<Hotkey> {
    match scan_parts(split_on(lowercase(s), '+')) {
        Some((m, Some(c))) => Some(
            Hotkey { modifiers: if m == no_modifiers() {
                None
            } else {
                Some(m)
            }, code: c },
        ),
        _ => None,
    }
}

/// Whether a (trimmed) part names a modifier.
pub open spec fn is_modifier_name(part: Seq<char>) -> bool {
    part == "ctrl"@ || part == "control"@ || part == "alt"@ || part == "shift"@ || part == "meta"@
        || part == "win"@ || part == "super"@ || part == "cmd"@
}

/// Applies two parts one after the other.
pub open spec fn apply_two(state: (Modifiers, Option<KeyCode>), a: Seq<char>, b: Seq<char>) -> Option<
    (Modifiers, Option<KeyCode>),
> {
    match apply_part(state, a) {
        Some(mid) => apply_part(mid, b),
        None => None,
    }
}

/// A modifier may stand before or after any other part: swapping it with
/// its neighbour changes neither the combination nor whether the string is
/// rejected.
pub proof fn lemma_modifier_position_irrelevant(
    state: (Modifiers, Option<KeyCode>),
    modifier: Seq<char>,
    other: Seq<char>,
)
    requires
        is_modifier_name(modifier),
    ensures
        apply_two(state, modifier, other) == apply_two(state, other, modifier),
{
}

/// Case does not matter: two strings with the same lowercase form stand for
/// the same combination.
pub proof fn lemma_hotkey_ignores_case(s: Seq<char>, t: Seq<char>)
    requires
        lowercase(s) == lowercase(t),
    ensures
        hotkey_of(s) == hotkey_of(t),
{
}

proof fn lemma_rejection_persists(parts: Seq<Seq<char>>, j: int)
    requires
        0 <= j <= parts.len(),
        scan_parts(parts.take(j)) is None,
    ensures
        scan_parts(parts) is None,
    decreases parts.len() - j,
{
    if j < parts.len() {
        assert(parts.take(j + 1).drop_last() =~= parts.take(j));
        lemma_rejection_persists(parts, j + 1);
    } else {
        assert(parts.take(j) =~= parts);
    }
}

/// Reads a hotkey string such as `Ctrl+Shift+K`: case does not matter,
/// parts are separated by `+` and trimmed; `ctrl`/`control`, `alt`,
/// `shift` and `meta`/`win`/`super`/`cmd` are modifiers; every other part
/// must be a key name, and one must be there.
pub fn parse_hotkey(s: &str) -> (r: Option<Hotkey>)
    ensures
        r == hotkey_of(s@),
{
    let lower = to_lowercase(s);
    let parts = split_char(lower.as_str(), '+');
    let ghost pv = views_of(parts@);
    let mut m = Modifiers { control: false, alt: false, shift: false, meta: false };
    let mut key: Option<KeyCode> = None;
    let mut i: usize = 0;
    assert(pv.take(0) =~= Seq::<Seq<char>>::empty());
    while i < parts.len()
        invariant
            pv == views_of(parts@),
            pv == split_on(lowercase(s@), '+'),
            i <= parts@.len(),
            scan_parts(pv.take(i as int)) == Some((m, key)),
        decreases parts@.len() - i,
    {
        let part = trim(parts[i]);
        proof {
            assert(pv.take(i + 1).drop_last() =~= pv.take(i as int));
            assert(pv.take(i + 1).last() == parts@[i as int]@);
        }
        if str_equal(part, "ctrl") || str_equal(part, "control") {
            m.control = true;
        } else if str_equal(part, "alt") {
            m.alt = true;
        } else if str_equal(part, "shift") {
            m.shift = true;
        } else if str_equal(part, "meta") || str_equal(part, "win") || str_equal(part, "super")
            || str_equal(part, "cmd") {
            m.meta = true;
        } else {
            match str_to_code(part) {
                Some(c) => {
                    key = Some(c);
                },
                None => {
                    proof {
                        lemma_rejection_persists(pv, i + 1);
                    }
                    return None;
                },
            }
        }
        i = i + 1;
    }
    assert(pv.take(parts@.len() as int) =~= pv);
    match key {
        Some(code) => {
            let modifiers = if !(m.control || m.alt || m.shift || m.meta) {
                None
            } else {
                Some(m)
            };
            Some(Hotkey { modifiers, code })
        },
        None => None,
    }
}

} // verus!
