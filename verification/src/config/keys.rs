use vstd::prelude::*;

use crate::error::Error;
use crate::text::{spec_to_lowercase, str_eq, to_lowercase};

verus! {

/// A key of the keyboard.
#[derive(Debug, PartialEq, Eq, Copy, Clone, Structural)]
pub enum Key {
    ScrollLock,
    Noop,
    Esc,
    F1,
    F2,
    F3,
    F4,
    F5,
    F6,
    F7,
    F8,
    F9,
    F10,
    F11,
    F12,
    Print,
    Pause,
    Backtick,
    Key1,
    Key2,
    Key3,
    Key4,
    Key5,
    Key6,
    Key7,
    Key8,
    Key9,
    Key0,
    Minus,
    Equals,
    Backspace,
    Insert,
    Home,
    Prior,
    NumLock,
    NumDivide,
    NumMultiply,
    NumSubtract,
    Tab,
    KeyQ,
    KeyW,
    KeyE,
    KeyR,
    KeyT,
    KeyY,
    KeyU,
    KeyI,
    KeyO,
    KeyP,
    LeftAngleBracket,
    RightAngleBracket,
    Backslash,
    Delete,
    End,
    Next,
    Num7,
    Num8,
    Num9,
    NumAdd,
    CapsLock,
    KeyA,
    KeyS,
    KeyD,
    KeyF,
    KeyG,
    KeyH,
    KeyJ,
    KeyK,
    KeyL,
    Semicolon,
    Quote,
    Enter,
    Num4,
    Num5,
    Num6,
    LShift,
    KeyZ,
    KeyX,
    KeyC,
    KeyV,
    KeyB,
    KeyN,
    KeyM,
    Colon,
    Period,
    Slash,
    RShift,
    Up,
    Num1,
    Num2,
    Num3,
    NumEnter,
    Ctrl,
    Mod,
    Alt,
    Space,
    RAlt,
    Fn,
    Menu,
    RCtrl,
    Down,
    Left,
    Right,
    Num0,
    NumDecimal,
}

/// The X11 keysym name of a key.
pub open spec fn key_x11_name(k: Key) -> Seq<char> {
    match k {
        Key::ScrollLock => "Scroll_Lock"@,
        Key::Noop => "Noop"@,
        Key::Esc => "Escape"@,
        Key::F1 => "F1"@,
        Key::F2 => "F2"@,
        Key::F3 => "F3"@,
        Key::F4 => "F4"@,
        Key::F5 => "F5"@,
        Key::F6 => "F6"@,
        Key::F7 => "F7"@,
        Key::F8 => "F8"@,
        Key::F9 => "F9"@,
        Key::F10 => "F10"@,
        Key::F11 => "F11"@,
        Key::F12 => "F12"@,
        Key::Print => "Print"@,
        Key::Pause => "Pause"@,
        Key::Backtick => "grave"@,
        Key::Key1 => "1"@,
        Key::Key2 => "2"@,
        Key::Key3 => "3"@,
        Key::Key4 => "4"@,
        Key::Key5 => "5"@,
        Key::Key6 => "6"@,
        Key::Key7 => "7"@,
        Key::Key8 => "8"@,
        Key::Key9 => "9"@,
        Key::Key0 => "0"@,
        Key::Minus => "minus"@,
        Key::Equals => "equal"@,
        Key::Backspace => "BackSpace"@,
        Key::Insert => "Insert"@,
        Key::Home => "Home"@,
        Key::Prior => "Prior"@,
        Key::NumLock => "Num_Lock"@,
        Key::NumDivide => "KP_Divide"@,
        Key::NumMultiply => "KP_Multiply"@,
        Key::NumSubtract => "KP_Subtract"@,
        Key::Tab => "Tab"@,
        Key::KeyQ => "q"@,
        Key::KeyW => "w"@,
        Key::KeyE => "e"@,
        Key::KeyR => "r"@,
        Key::KeyT => "t"@,
        Key::KeyY => "y"@,
        Key::KeyU => "u"@,
        Key::KeyI => "i"@,
        Key::KeyO => "o"@,
        Key::KeyP => "p"@,
        Key::LeftAngleBracket => "bracketleft"@,
        Key::RightAngleBracket => "bracketright"@,
        Key::Backslash => "backslash"@,
        Key::Delete => "Delete"@,
        Key::End => "End"@,
        Key::Next => "Next"@,
        Key::Num7 => "KP_Home"@,
        Key::Num8 => "KP_Up"@,
        Key::Num9 => "KP_Prior"@,
        Key::NumAdd => "KP_Add"@,
        Key::CapsLock => "Caps_Lock"@,
        Key::KeyA => "a"@,
        Key::KeyS => "s"@,
        Key::KeyD => "d"@,
        Key::KeyF => "f"@,
        Key::KeyG => "g"@,
        Key::KeyH => "h"@,
        Key::KeyJ => "j"@,
        Key::KeyK => "k"@,
        Key::KeyL => "l"@,
        Key::Semicolon => "semicolon"@,
        Key::Quote => "apostrophe"@,
        Key::Enter => "Return"@,
        Key::Num4 => "KP_Left"@,
        Key::Num5 => "KP_Begin"@,
        Key::Num6 => "KP_Right"@,
        Key::LShift => "Shift_L"@,
        Key::KeyZ => "z"@,
        Key::KeyX => "x"@,
        Key::KeyC => "c"@,
        Key::KeyV => "v"@,
        Key::KeyB => "b"@,
        Key::KeyN => "n"@,
        Key::KeyM => "m"@,
        Key::Colon => "comma"@,
        Key::Period => "period"@,
        Key::Slash => "slash"@,
        Key::RShift => "Shift_R"@,
        Key::Up => "Up"@,
        Key::Num1 => "KP_End"@,
        Key::Num2 => "KP_Down"@,
        Key::Num3 => "KP_Next"@,
        Key::NumEnter => "KP_Enter"@,
        Key::Ctrl => "Control_L"@,
        Key::Mod => "Super_L"@,
        Key::Alt => "Alt_L"@,
        Key::Space => "space"@,
        Key::RAlt => "Alt_R"@,
        Key::Fn => "Fn key"@,
        Key::Menu => "Menu"@,
        Key::RCtrl => "Control_R"@,
        Key::Down => "Down"@,
        Key::Left => "Left"@,
        Key::Right => "Right"@,
        Key::Num0 => "KP_Insert"@,
        Key::NumDecimal => "KP_Delete"@,
    }
}

pub open spec fn key_named_0(l: Seq<char>) -> Option<Key> {
    if l == "esc"@ || l == "escape"@ {
        Some(Key::Esc)
    } else if l == "f1"@ {
        Some(Key::F1)
    } else if l == "f2"@ {
        Some(Key::F2)
    } else if l == "f3"@ {
        Some(Key::F3)
    } else if l == "f4"@ {
        Some(Key::F4)
    } else if l == "f5"@ {
        Some(Key::F5)
    } else if l == "f6"@ {
        Some(Key::F6)
    } else if l == "f7"@ {
        Some(Key::F7)
    } else if l == "f8"@ {
        Some(Key::F8)
    } else if l == "f9"@ {
        Some(Key::F9)
    } else if l == "f10"@ {
        Some(Key::F10)
    } else if l == "f11"@ {
        Some(Key::F11)
    } else if l == "f12"@ {
        Some(Key::F12)
    } else if l == "print"@ {
        Some(Key::Print)
    } else if l == "scroll_lock"@ {
        Some(Key::ScrollLock)
    } else if l == "pause"@ {
        Some(Key::Pause)
    } else if l == "`"@ || l == "backtick"@ || l == "grave"@ {
        Some(Key::Backtick)
    } else if l == "1"@ {
        Some(Key::Key1)
    } else if l == "2"@ {
        Some(Key::Key2)
    } else if l == "3"@ {
        Some(Key::Key3)
    } else if l == "4"@ {
        Some(Key::Key4)
    } else if l == "5"@ {
        Some(Key::Key5)
    } else if l == "6"@ {
        Some(Key::Key6)
    } else if l == "7"@ {
        Some(Key::Key7)
    } else if l == "8"@ {
        Some(Key::Key8)
    } else if l == "9"@ {
        Some(Key::Key9)
    } else {
        None
    }
}

pub open spec fn key_named_1(l: Seq<char>) -> Option<Key> {
    if l == "0"@ {
        Some(Key::Key0)
    } else if l == "-"@ || l == "minus"@ {
        Some(Key::Minus)
    } else if l == "="@ || l == "equal"@ {
        Some(Key::Equals)
    } else if l == "backspace"@ {
        Some(Key::Backspace)
    } else if l == "insert"@ {
        Some(Key::Insert)
    } else if l == "home"@ {
        Some(Key::Home)
    } else if l == "pgup"@ || l == "pageup"@ || l == "prior"@ {
        Some(Key::Prior)
    } else if l == "numlock"@ {
        Some(Key::NumLock)
    } else if l == "numdivide"@ {
        Some(Key::NumDivide)
    } else if l == "nummultiply"@ {
        Some(Key::NumMultiply)
    } else if l == "numsubtract"@ {
        Some(Key::NumSubtract)
    } else if l == "tab"@ {
        Some(Key::Tab)
    } else if l == "q"@ {
        Some(Key::KeyQ)
    } else if l == "w"@ {
        Some(Key::KeyW)
    } else if l == "e"@ {
        Some(Key::KeyE)
    } else if l == "r"@ {
        Some(Key::KeyR)
    } else if l == "t"@ {
        Some(Key::KeyT)
    } else if l == "y"@ {
        Some(Key::KeyY)
    } else if l == "u"@ {
        Some(Key::KeyU)
    } else if l == "i"@ {
        Some(Key::KeyI)
    } else if l == "o"@ {
        Some(Key::KeyO)
    } else if l == "p"@ {
        Some(Key::KeyP)
    } else if l == "]"@ || l == "bracketright"@ {
        Some(Key::RightAngleBracket)
    } else if l == "["@ || l == "bracketleft"@ {
        Some(Key::LeftAngleBracket)
    } else if l == "\\"@ || l == "backslash"@ {
        Some(Key::Backslash)
    } else if l == "Delete"@ || l == "delete"@ {
        Some(Key::Delete)
    } else {
        None
    }
}

pub open spec fn key_named_2(l: Seq<char>) -> Option<Key> {
    if l == "End"@ || l == "end"@ {
        Some(Key::End)
    } else if l == "next"@ || l == "pagedown"@ || l == "pgdown"@ {
        Some(Key::Next)
    } else if l == "num7"@ {
        Some(Key::Num7)
    } else if l == "num8"@ {
        Some(Key::Num8)
    } else if l == "num9"@ {
        Some(Key::Num9)
    } else if l == "numadd"@ {
        Some(Key::NumAdd)
    } else if l == "caps_lock"@ || l == "caps"@ {
        Some(Key::CapsLock)
    } else if l == "a"@ {
        Some(Key::KeyA)
    } else if l == "s"@ {
        Some(Key::KeyS)
    } else if l == "d"@ {
        Some(Key::KeyD)
    } else if l == "f"@ {
        Some(Key::KeyF)
    } else if l == "g"@ {
        Some(Key::KeyG)
    } else if l == "h"@ {
        Some(Key::KeyH)
    } else if l == "j"@ {
        Some(Key::KeyJ)
    } else if l == "k"@ {
        Some(Key::KeyK)
    } else if l == "l"@ {
        Some(Key::KeyL)
    } else if l == ";"@ || l == "semicolon"@ {
        Some(Key::Semicolon)
    } else if l == "'"@ || l == "apostrophe"@ {
        Some(Key::Quote)
    } else if l == "cr"@ || l == "enter"@ || l == "return"@ {
        Some(Key::Enter)
    } else if l == "num4"@ {
        Some(Key::Num4)
    } else if l == "num5"@ {
        Some(Key::Num5)
    } else if l == "num6"@ {
        Some(Key::Num6)
    } else if l == "shift_l"@ || l == "lshift"@ || l == "shift"@ {
        Some(Key::LShift)
    } else if l == "z"@ {
        Some(Key::KeyZ)
    } else if l == "x"@ {
        Some(Key::KeyX)
    } else if l == "c"@ {
        Some(Key::KeyC)
    } else {
        None
    }
}

pub open spec fn key_named_3(l: Seq<char>) -> Option<Key> {
    if l == "v"@ {
        Some(Key::KeyV)
    } else if l == "b"@ {
        Some(Key::KeyB)
    } else if l == "n"@ {
        Some(Key::KeyN)
    } else if l == "m"@ {
        Some(Key::KeyM)
    } else if l == ","@ || l == "comma"@ {
        Some(Key::Colon)
    } else if l == "."@ || l == "period"@ {
        Some(Key::Period)
    } else if l == "/"@ || l == "slash"@ {
        Some(Key::Slash)
    } else if l == "shift_r"@ || l == "rshift"@ {
        Some(Key::RShift)
    } else if l == "up"@ {
        Some(Key::Up)
    } else if l == "num1"@ {
        Some(Key::Num1)
    } else if l == "num2"@ {
        Some(Key::Num2)
    } else if l == "num3"@ {
        Some(Key::Num3)
    } else if l == "numenter"@ {
        Some(Key::NumEnter)
    } else if l == "ctrl"@ || l == "control_l"@ || l == "lctrl"@ {
        Some(Key::Ctrl)
    } else if l == "super_l"@ || l == "mod"@ {
        Some(Key::Mod)
    } else if l == "alt_l"@ || l == "alt"@ {
        Some(Key::Alt)
    } else if l == "space"@ {
        Some(Key::Space)
    } else if l == "alt_r"@ || l == "ralt"@ {
        Some(Key::RAlt)
    } else if l == "fn"@ {
        Some(Key::Fn)
    } else if l == "menu"@ {
        Some(Key::Menu)
    } else if l == "control_r"@ || l == "rctrl"@ {
        Some(Key::RCtrl)
    } else if l == "down"@ {
        Some(Key::Down)
    } else if l == "left"@ {
        Some(Key::Left)
    } else if l == "right"@ {
        Some(Key::Right)
    } else if l == "num0"@ {
        Some(Key::Num0)
    } else if l == "numdecimal"@ {
        Some(Key::NumDecimal)
    } else {
        None
    }
}

/// The key that a lowercase key name stands for in a config file, if any.
pub open spec fn key_named(l: Seq<char>) -> Option<Key> {
    if key_named_0(l) is Some {
        key_named_0(l)
    } else     if key_named_1(l) is Some {
        key_named_1(l)
    } else     if key_named_2(l) is Some {
        key_named_2(l)
    } else {
        key_named_3(l)
    }
}

impl Key {
    fn from_lowercase_0(l: &str) -> (r: Option<Key>)
        ensures
            r == key_named_0(l@),
    {
        if str_eq(l, "esc") || str_eq(l, "escape") {
            Some(Key::Esc)
        } else if str_eq(l, "f1") {
            Some(Key::F1)
        } else if str_eq(l, "f2") {
            Some(Key::F2)
        } else if str_eq(l, "f3") {
            Some(Key::F3)
        } else if str_eq(l, "f4") {
            Some(Key::F4)
        } else if str_eq(l, "f5") {
            Some(Key::F5)
        } else if str_eq(l, "f6") {
            Some(Key::F6)
        } else if str_eq(l, "f7") {
            Some(Key::F7)
        } else if str_eq(l, "f8") {
            Some(Key::F8)
        } else if str_eq(l, "f9") {
            Some(Key::F9)
        } else if str_eq(l, "f10") {
            Some(Key::F10)
        } else if str_eq(l, "f11") {
            Some(Key::F11)
        } else if str_eq(l, "f12") {
            Some(Key::F12)
        } else if str_eq(l, "print") {
            Some(Key::Print)
        } else if str_eq(l, "scroll_lock") {
            Some(Key::ScrollLock)
        } else if str_eq(l, "pause") {
            Some(Key::Pause)
        } else if str_eq(l, "`") || str_eq(l, "backtick") || str_eq(l, "grave") {
            Some(Key::Backtick)
        } else if str_eq(l, "1") {
            Some(Key::Key1)
        } else if str_eq(l, "2") {
            Some(Key::Key2)
        } else if str_eq(l, "3") {
            Some(Key::Key3)
        } else if str_eq(l, "4") {
            Some(Key::Key4)
        } else if str_eq(l, "5") {
            Some(Key::Key5)
        } else if str_eq(l, "6") {
            Some(Key::Key6)
        } else if str_eq(l, "7") {
            Some(Key::Key7)
        } else if str_eq(l, "8") {
            Some(Key::Key8)
        } else if str_eq(l, "9") {
            Some(Key::Key9)
        } else {
            None
        }
    }

    fn from_lowercase_1(l: &str) -> (r: Option<Key>)
        ensures
            r == key_named_1(l@),
    {
        if str_eq(l, "0") {
            Some(Key::Key0)
        } else if str_eq(l, "-") || str_eq(l, "minus") {
            Some(Key::Minus)
        } else if str_eq(l, "=") || str_eq(l, "equal") {
            Some(Key::Equals)
        } else if str_eq(l, "backspace") {
            Some(Key::Backspace)
        } else if str_eq(l, "insert") {
            Some(Key::Insert)
        } else if str_eq(l, "home") {
            Some(Key::Home)
        } else if str_eq(l, "pgup") || str_eq(l, "pageup") || str_eq(l, "prior") {
            Some(Key::Prior)
        } else if str_eq(l, "numlock") {
            Some(Key::NumLock)
        } else if str_eq(l, "numdivide") {
            Some(Key::NumDivide)
        } else if str_eq(l, "nummultiply") {
            Some(Key::NumMultiply)
        } else if str_eq(l, "numsubtract") {
            Some(Key::NumSubtract)
        } else if str_eq(l, "tab") {
            Some(Key::Tab)
        } else if str_eq(l, "q") {
            Some(Key::KeyQ)
        } else if str_eq(l, "w") {
            Some(Key::KeyW)
        } else if str_eq(l, "e") {
            Some(Key::KeyE)
        } else if str_eq(l, "r") {
            Some(Key::KeyR)
        } else if str_eq(l, "t") {
            Some(Key::KeyT)
        } else if str_eq(l, "y") {
            Some(Key::KeyY)
        } else if str_eq(l, "u") {
            Some(Key::KeyU)
        } else if str_eq(l, "i") {
            Some(Key::KeyI)
        } else if str_eq(l, "o") {
            Some(Key::KeyO)
        } else if str_eq(l, "p") {
            Some(Key::KeyP)
        } else if str_eq(l, "]") || str_eq(l, "bracketright") {
            Some(Key::RightAngleBracket)
        } else if str_eq(l, "[") || str_eq(l, "bracketleft") {
            Some(Key::LeftAngleBracket)
        } else if str_eq(l, "\\") || str_eq(l, "backslash") {
            Some(Key::Backslash)
        } else if str_eq(l, "Delete") || str_eq(l, "delete") {
            Some(Key::Delete)
        } else {
            None
        }
    }

    fn from_lowercase_2(l: &str) -> (r: Option<Key>)
        ensures
            r == key_named_2(l@),
    {
        if str_eq(l, "End") || str_eq(l, "end") {
            Some(Key::End)
        } else if str_eq(l, "next") || str_eq(l, "pagedown") || str_eq(l, "pgdown") {
            Some(Key::Next)
        } else if str_eq(l, "num7") {
            Some(Key::Num7)
        } else if str_eq(l, "num8") {
            Some(Key::Num8)
        } else if str_eq(l, "num9") {
            Some(Key::Num9)
        } else if str_eq(l, "numadd") {
            Some(Key::NumAdd)
        } else if str_eq(l, "caps_lock") || str_eq(l, "caps") {
            Some(Key::CapsLock)
        } else if str_eq(l, "a") {
            Some(Key::KeyA)
        } else if str_eq(l, "s") {
            Some(Key::KeyS)
        } else if str_eq(l, "d") {
            Some(Key::KeyD)
        } else if str_eq(l, "f") {
            Some(Key::KeyF)
        } else if str_eq(l, "g") {
            Some(Key::KeyG)
        } else if str_eq(l, "h") {
            Some(Key::KeyH)
        } else if str_eq(l, "j") {
            Some(Key::KeyJ)
        } else if str_eq(l, "k") {
            Some(Key::KeyK)
        } else if str_eq(l, "l") {
            Some(Key::KeyL)
        } else if str_eq(l, ";") || str_eq(l, "semicolon") {
            Some(Key::Semicolon)
        } else if str_eq(l, "'") || str_eq(l, "apostrophe") {
            Some(Key::Quote)
        } else if str_eq(l, "cr") || str_eq(l, "enter") || str_eq(l, "return") {
            Some(Key::Enter)
        } else if str_eq(l, "num4") {
            Some(Key::Num4)
        } else if str_eq(l, "num5") {
            Some(Key::Num5)
        } else if str_eq(l, "num6") {
            Some(Key::Num6)
        } else if str_eq(l, "shift_l") || str_eq(l, "lshift") || str_eq(l, "shift") {
            Some(Key::LShift)
        } else if str_eq(l, "z") {
            Some(Key::KeyZ)
        } else if str_eq(l, "x") {
            Some(Key::KeyX)
        } else if str_eq(l, "c") {
            Some(Key::KeyC)
        } else {
            None
        }
    }

    fn from_lowercase_3(l: &str) -> (r: Option<Key>)
        ensures
            r == key_named_3(l@),
    {
        if str_eq(l, "v") {
            Some(Key::KeyV)
        } else if str_eq(l, "b") {
            Some(Key::KeyB)
        } else if str_eq(l, "n") {
            Some(Key::KeyN)
        } else if str_eq(l, "m") {
            Some(Key::KeyM)
        } else if str_eq(l, ",") || str_eq(l, "comma") {
            Some(Key::Colon)
        } else if str_eq(l, ".") || str_eq(l, "period") {
            Some(Key::Period)
        } else if str_eq(l, "/") || str_eq(l, "slash") {
            Some(Key::Slash)
        } else if str_eq(l, "shift_r") || str_eq(l, "rshift") {
            Some(Key::RShift)
        } else if str_eq(l, "up") {
            Some(Key::Up)
        } else if str_eq(l, "num1") {
            Some(Key::Num1)
        } else if str_eq(l, "num2") {
            Some(Key::Num2)
        } else if str_eq(l, "num3") {
            Some(Key::Num3)
        } else if str_eq(l, "numenter") {
            Some(Key::NumEnter)
        } else if str_eq(l, "ctrl") || str_eq(l, "control_l") || str_eq(l, "lctrl") {
            Some(Key::Ctrl)
        } else if str_eq(l, "super_l") || str_eq(l, "mod") {
            Some(Key::Mod)
        } else if str_eq(l, "alt_l") || str_eq(l, "alt") {
            Some(Key::Alt)
        } else if str_eq(l, "space") {
            Some(Key::Space)
        } else if str_eq(l, "alt_r") || str_eq(l, "ralt") {
            Some(Key::RAlt)
        } else if str_eq(l, "fn") {
            Some(Key::Fn)
        } else if str_eq(l, "menu") {
            Some(Key::Menu)
        } else if str_eq(l, "control_r") || str_eq(l, "rctrl") {
            Some(Key::RCtrl)
        } else if str_eq(l, "down") {
            Some(Key::Down)
        } else if str_eq(l, "left") {
            Some(Key::Left)
        } else if str_eq(l, "right") {
            Some(Key::Right)
        } else if str_eq(l, "num0") {
            Some(Key::Num0)
        } else if str_eq(l, "numdecimal") {
            Some(Key::NumDecimal)
        } else {
            None
        }
    }

    /// The key that a lowercase key name stands for in a config file, if any.
    pub fn from_lowercase(l: &str) -> (r: Option<Key>)
        ensures
            r == key_named(l@),
    {
        let k = Self::from_lowercase_0(l);
        if k.is_some() {
            return k;
        }
        let k = Self::from_lowercase_1(l);
        if k.is_some() {
            return k;
        }
        let k = Self::from_lowercase_2(l);
        if k.is_some() {
            return k;
        }
        Self::from_lowercase_3(l)
    }

    /// The key named `s` (in any case) in a config file.
    pub fn from_str(s: &str) -> (r: Result<Key, Error>)
        ensures
            match key_named(spec_to_lowercase(s@)) {
                Some(k) => r == Ok::<Key, Error>(k),
                None => r matches Err(Error::UnknownKey(x)) && x@ == s@,
            },
    {
        let lower = to_lowercase(s);
        match Self::from_lowercase(lower.as_str()) {
            Some(k) => Ok(k),
            None => Err(Error::UnknownKey(String::from_str(s))),
        }
    }

    /// The X11 keysym name of the key.
    pub fn get_x11_str(&self) -> (r: &'static str)
        ensures
            r@ == key_x11_name(*self),
    {
        match self {
            Key::ScrollLock => "Scroll_Lock",
            Key::Noop => "Noop",
            Key::Esc => "Escape",
            Key::F1 => "F1",
            Key::F2 => "F2",
            Key::F3 => "F3",
            Key::F4 => "F4",
            Key::F5 => "F5",
            Key::F6 => "F6",
            Key::F7 => "F7",
            Key::F8 => "F8",
            Key::F9 => "F9",
            Key::F10 => "F10",
            Key::F11 => "F11",
            Key::F12 => "F12",
            Key::Print => "Print",
            Key::Pause => "Pause",
            Key::Backtick => "grave",
            Key::Key1 => "1",
            Key::Key2 => "2",
            Key::Key3 => "3",
            Key::Key4 => "4",
            Key::Key5 => "5",
            Key::Key6 => "6",
            Key::Key7 => "7",
            Key::Key8 => "8",
            Key::Key9 => "9",
            Key::Key0 => "0",
            Key::Minus => "minus",
            Key::Equals => "equal",
            Key::Backspace => "BackSpace",
            Key::Insert => "Insert",
            Key::Home => "Home",
            Key::Prior => "Prior",
            Key::NumLock => "Num_Lock",
            Key::NumDivide => "KP_Divide",
            Key::NumMultiply => "KP_Multiply",
            Key::NumSubtract => "KP_Subtract",
            Key::Tab => "Tab",
            Key::KeyQ => "q",
            Key::KeyW => "w",
            Key::KeyE => "e",
            Key::KeyR => "r",
            Key::KeyT => "t",
            Key::KeyY => "y",
            Key::KeyU => "u",
            Key::KeyI => "i",
            Key::KeyO => "o",
            Key::KeyP => "p",
            Key::LeftAngleBracket => "bracketleft",
            Key::RightAngleBracket => "bracketright",
            Key::Backslash => "backslash",
            Key::Delete => "Delete",
            Key::End => "End",
            Key::Next => "Next",
            Key::Num7 => "KP_Home",
            Key::Num8 => "KP_Up",
            Key::Num9 => "KP_Prior",
            Key::NumAdd => "KP_Add",
            Key::CapsLock => "Caps_Lock",
            Key::KeyA => "a",
            Key::KeyS => "s",
            Key::KeyD => "d",
            Key::KeyF => "f",
            Key::KeyG => "g",
            Key::KeyH => "h",
            Key::KeyJ => "j",
            Key::KeyK => "k",
            Key::KeyL => "l",
            Key::Semicolon => "semicolon",
            Key::Quote => "apostrophe",
            Key::Enter => "Return",
            Key::Num4 => "KP_Left",
            Key::Num5 => "KP_Begin",
            Key::Num6 => "KP_Right",
            Key::LShift => "Shift_L",
            Key::KeyZ => "z",
            Key::KeyX => "x",
            Key::KeyC => "c",
            Key::KeyV => "v",
            Key::KeyB => "b",
            Key::KeyN => "n",
            Key::KeyM => "m",
            Key::Colon => "comma",
            Key::Period => "period",
            Key::Slash => "slash",
            Key::RShift => "Shift_R",
            Key::Up => "Up",
            Key::Num1 => "KP_End",
            Key::Num2 => "KP_Down",
            Key::Num3 => "KP_Next",
            Key::NumEnter => "KP_Enter",
            Key::Ctrl => "Control_L",
            Key::Mod => "Super_L",
            Key::Alt => "Alt_L",
            Key::Space => "space",
            Key::RAlt => "Alt_R",
            Key::Fn => "Fn key",
            Key::Menu => "Menu",
            Key::RCtrl => "Control_R",
            Key::Down => "Down",
            Key::Left => "Left",
            Key::Right => "Right",
            Key::Num0 => "KP_Insert",
            Key::NumDecimal => "KP_Delete",
        }
    }

    /// A key whose name is longer than one character is written in angle brackets.
    pub fn is_special(&self) -> (r: bool)
        ensures
            r == (key_x11_name(*self).len() > 1),
    {
        self.get_x11_str().unicode_len() > 1
    }
}

} // verus!
