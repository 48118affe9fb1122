//! Recorder hotkeys: which keys can start a hotkey and the name each is
//! stored under, and the hotkey a key press proposes.

use vstd::prelude::*;
use vstd::string::StringExecFns;
use crate::library::opt_str_view;

verus! {

/// The keys a key press may report. `Other` stands for every key the
/// recorder does not take (modifier keys, F25 and beyond, media keys).
#[derive(Clone, Copy, Debug, PartialEq, Eq, Structural)]
pub enum HotkeyKey {
    ArrowDown,
    ArrowLeft,
    ArrowRight,
    ArrowUp,
    Escape,
    Tab,
    Backspace,
    Enter,
    Space,
    Insert,
    Delete,
    Home,
    End,
    PageUp,
    PageDown,
    Colon,
    Comma,
    Backslash,
    Slash,
    Pipe,
    Questionmark,
    Exclamationmark,
    OpenBracket,
    CloseBracket,
    OpenCurlyBracket,
    CloseCurlyBracket,
    Backtick,
    Minus,
    Period,
    Plus,
    Equals,
    Semicolon,
    Quote,
    Num0,
    Num1,
    Num2,
    Num3,
    Num4,
    Num5,
    Num6,
    Num7,
    Num8,
    Num9,
    A,
    B,
    C,
    D,
    E,
    F,
    G,
    H,
    I,
    J,
    K,
    L,
    M,
    N,
    O,
    P,
    Q,
    R,
    S,
    T,
    U,
    V,
    W,
    X,
    Y,
    Z,
    F1,
    F2,
    F3,
    F4,
    F5,
    F6,
    F7,
    F8,
    F9,
    F10,
    F11,
    F12,
    F13,
    F14,
    F15,
    F16,
    F17,
    F18,
    F19,
    F20,
    F21,
    F22,
    F23,
    F24,
    IntlBackslash,
    Other,
}

/// The name a key is stored under in a hotkey; shifted punctuation is
/// stored as its unshifted key (`+` as `=`, `?` as `/`, `!` as `1`, ...).
pub open spec fn hotkey_key_name(key: HotkeyKey) -> Option<Seq<char>> {
    match key {
        HotkeyKey::ArrowDown => Some("Down"@),
        HotkeyKey::ArrowLeft => Some("Left"@),
        HotkeyKey::ArrowRight => Some("Right"@),
        HotkeyKey::ArrowUp => Some("Up"@),
        HotkeyKey::Escape => Some("Escape"@),
        HotkeyKey::Tab => Some("Tab"@),
        HotkeyKey::Backspace => Some("Backspace"@),
        HotkeyKey::Enter => Some("Enter"@),
        HotkeyKey::Space => Some("Space"@),
        HotkeyKey::Insert => Some("Insert"@),
        HotkeyKey::Delete => Some("Delete"@),
        HotkeyKey::Home => Some("Home"@),
        HotkeyKey::End => Some("End"@),
        HotkeyKey::PageUp => Some("PageUp"@),
        HotkeyKey::PageDown => Some("PageDown"@),
        HotkeyKey::Colon => Some(";"@),
        HotkeyKey::Comma => Some(","@),
        HotkeyKey::Backslash => Some("\\"@),
        HotkeyKey::Slash => Some("/"@),
        HotkeyKey::Pipe => Some("\\"@),
        HotkeyKey::Questionmark => Some("/"@),
        HotkeyKey::Exclamationmark => Some("1"@),
        HotkeyKey::OpenBracket => Some("["@),
        HotkeyKey::CloseBracket => Some("]"@),
        HotkeyKey::OpenCurlyBracket => Some("["@),
        HotkeyKey::CloseCurlyBracket => Some("]"@),
        HotkeyKey::Backtick => Some("`"@),
        HotkeyKey::Minus => Some("-"@),
        HotkeyKey::Period => Some("."@),
        HotkeyKey::Plus => Some("="@),
        HotkeyKey::Equals => Some("="@),
        HotkeyKey::Semicolon => Some(";"@),
        HotkeyKey::Quote => Some("'"@),
        HotkeyKey::Num0 => Some("0"@),
        HotkeyKey::Num1 => Some("1"@),
        HotkeyKey::Num2 => Some("2"@),
        HotkeyKey::Num3 => Some("3"@),
        HotkeyKey::Num4 => Some("4"@),
        HotkeyKey::Num5 => Some("5"@),
        HotkeyKey::Num6 => Some("6"@),
        HotkeyKey::Num7 => Some("7"@),
        HotkeyKey::Num8 => Some("8"@),
        HotkeyKey::Num9 => Some("9"@),
        HotkeyKey::A => Some("A"@),
        HotkeyKey::B => Some("B"@),
        HotkeyKey::C => Some("C"@),
        HotkeyKey::D => Some("D"@),
        HotkeyKey::E => Some("E"@),
        HotkeyKey::F => Some("F"@),
        HotkeyKey::G => Some("G"@),
        HotkeyKey::H => Some("H"@),
        HotkeyKey::I => Some("I"@),
        HotkeyKey::J => Some("J"@),
        HotkeyKey::K => Some("K"@),
        HotkeyKey::L => Some("L"@),
        HotkeyKey::M => Some("M"@),
        HotkeyKey::N => Some("N"@),
        HotkeyKey::O => Some("O"@),
        HotkeyKey::P => Some("P"@),
        HotkeyKey::Q => Some("Q"@),
        HotkeyKey::R => Some("R"@),
        HotkeyKey::S => Some("S"@),
        HotkeyKey::T => Some("T"@),
        HotkeyKey::U => Some("U"@),
        HotkeyKey::V => Some("V"@),
        HotkeyKey::W => Some("W"@),
        HotkeyKey::X => Some("X"@),
        HotkeyKey::Y => Some("Y"@),
        HotkeyKey::Z => Some("Z"@),
        HotkeyKey::F1 => Some("F1"@),
        HotkeyKey::F2 => Some("F2"@),
        HotkeyKey::F3 => Some("F3"@),
        HotkeyKey::F4 => Some("F4"@),
        HotkeyKey::F5 => Some("F5"@),
        HotkeyKey::F6 => Some("F6"@),
        HotkeyKey::F7 => Some("F7"@),
        HotkeyKey::F8 => Some("F8"@),
        HotkeyKey::F9 => Some("F9"@),
        HotkeyKey::F10 => Some("F10"@),
        HotkeyKey::F11 => Some("F11"@),
        HotkeyKey::F12 => Some("F12"@),
        HotkeyKey::F13 => Some("F13"@),
        HotkeyKey::F14 => Some("F14"@),
        HotkeyKey::F15 => Some("F15"@),
        HotkeyKey::F16 => Some("F16"@),
        HotkeyKey::F17 => Some("F17"@),
        HotkeyKey::F18 => Some("F18"@),
        HotkeyKey::F19 => Some("F19"@),
        HotkeyKey::F20 => Some("F20"@),
        HotkeyKey::F21 => Some("F21"@),
        HotkeyKey::F22 => Some("F22"@),
        HotkeyKey::F23 => Some("F23"@),
        HotkeyKey::F24 => Some("F24"@),
        HotkeyKey::IntlBackslash => Some("\\"@),
        HotkeyKey::Other => None,
    }
}

/// `recorder_hotkey_key`.
pub fn recorder_hotkey_key(key: HotkeyKey) -> (r: Option<&'static str>)
    ensures
        opt_str_view(r) == hotkey_key_name(key),
{
    match key {
        HotkeyKey::ArrowDown => Some("Down"),
        HotkeyKey::ArrowLeft => Some("Left"),
        HotkeyKey::ArrowRight => Some("Right"),
        HotkeyKey::ArrowUp => Some("Up"),
        HotkeyKey::Escape => Some("Escape"),
        HotkeyKey::Tab => Some("Tab"),
        HotkeyKey::Backspace => Some("Backspace"),
        HotkeyKey::Enter => Some("Enter"),
        HotkeyKey::Space => Some("Space"),
        HotkeyKey::Insert => Some("Insert"),
        HotkeyKey::Delete => Some("Delete"),
        HotkeyKey::Home => Some("Home"),
        HotkeyKey::End => Some("End"),
        HotkeyKey::PageUp => Some("PageUp"),
        HotkeyKey::PageDown => Some("PageDown"),
        HotkeyKey::Colon => Some(";"),
        HotkeyKey::Comma => Some(","),
        HotkeyKey::Backslash => Some("\\"),
        HotkeyKey::Slash => Some("/"),
        HotkeyKey::Pipe => Some("\\"),
        HotkeyKey::Questionmark => Some("/"),
        HotkeyKey::Exclamationmark => Some("1"),
        HotkeyKey::OpenBracket => Some("["),
        HotkeyKey::CloseBracket => Some("]"),
        HotkeyKey::OpenCurlyBracket => Some("["),
        HotkeyKey::CloseCurlyBracket => Some("]"),
        HotkeyKey::Backtick => Some("`"),
        HotkeyKey::Minus => Some("-"),
        HotkeyKey::Period => Some("."),
        HotkeyKey::Plus => Some("="),
        HotkeyKey::Equals => Some("="),
        HotkeyKey::Semicolon => Some(";"),
        HotkeyKey::Quote => Some("'"),
        HotkeyKey::Num0 => Some("0"),
        HotkeyKey::Num1 => Some("1"),
        HotkeyKey::Num2 => Some("2"),
        HotkeyKey::Num3 => Some("3"),
        HotkeyKey::Num4 => Some("4"),
        HotkeyKey::Num5 => Some("5"),
        HotkeyKey::Num6 => Some("6"),
        HotkeyKey::Num7 => Some("7"),
        HotkeyKey::Num8 => Some("8"),
        HotkeyKey::Num9 => Some("9"),
        HotkeyKey::A => Some("A"),
        HotkeyKey::B => Some("B"),
        HotkeyKey::C => Some("C"),
        HotkeyKey::D => Some("D"),
        HotkeyKey::E => Some("E"),
        HotkeyKey::F => Some("F"),
        HotkeyKey::G => Some("G"),
        HotkeyKey::H => Some("H"),
        HotkeyKey::I => Some("I"),
        HotkeyKey::J => Some("J"),
        HotkeyKey::K => Some("K"),
        HotkeyKey::L => Some("L"),
        HotkeyKey::M => Some("M"),
        HotkeyKey::N => Some("N"),
        HotkeyKey::O => Some("O"),
        HotkeyKey::P => Some("P"),
        HotkeyKey::Q => Some("Q"),
        HotkeyKey::R => Some("R"),
        HotkeyKey::S => Some("S"),
        HotkeyKey::T => Some("T"),
        HotkeyKey::U => Some("U"),
        HotkeyKey::V => Some("V"),
        HotkeyKey::W => Some("W"),
        HotkeyKey::X => Some("X"),
        HotkeyKey::Y => Some("Y"),
        HotkeyKey::Z => Some("Z"),
        HotkeyKey::F1 => Some("F1"),
        HotkeyKey::F2 => Some("F2"),
        HotkeyKey::F3 => Some("F3"),
        HotkeyKey::F4 => Some("F4"),
        HotkeyKey::F5 => Some("F5"),
        HotkeyKey::F6 => Some("F6"),
        HotkeyKey::F7 => Some("F7"),
        HotkeyKey::F8 => Some("F8"),
        HotkeyKey::F9 => Some("F9"),
        HotkeyKey::F10 => Some("F10"),
        HotkeyKey::F11 => Some("F11"),
        HotkeyKey::F12 => Some("F12"),
        HotkeyKey::F13 => Some("F13"),
        HotkeyKey::F14 => Some("F14"),
        HotkeyKey::F15 => Some("F15"),
        HotkeyKey::F16 => Some("F16"),
        HotkeyKey::F17 => Some("F17"),
        HotkeyKey::F18 => Some("F18"),
        HotkeyKey::F19 => Some("F19"),
        HotkeyKey::F20 => Some("F20"),
        HotkeyKey::F21 => Some("F21"),
        HotkeyKey::F22 => Some("F22"),
        HotkeyKey::F23 => Some("F23"),
        HotkeyKey::F24 => Some("F24"),
        HotkeyKey::IntlBackslash => Some("\\"),
        HotkeyKey::Other => None,
    }
}

/// The modifier keys held during a key press.
#[derive(Clone, Copy, Debug, PartialEq, Eq, Structural)]
pub struct HotkeyModifiers {
    pub ctrl: bool,
    pub alt: bool,
    pub shift: bool,
    pub mac_cmd: bool,
}

/// A proposed hotkey: a key name and the modifiers.
#[derive(Debug)]
pub struct Hotkey {
    pub key: String,
    pub ctrl: bool,
    pub alt: bool,
    pub shift: bool,
    pub meta: bool,
}

/// The key name a press gives: that of the physical key when it has one,
/// else that of the logical key.
pub open spec fn event_key_name(key: HotkeyKey, physical: Option<HotkeyKey>) -> Option<Seq<char>> {
    match physical {
        Some(p) => match hotkey_key_name(p) {
            Some(n) => Some(n),
            None => hotkey_key_name(key),
        },
        None => hotkey_key_name(key),
    }
}

/// The hotkey a key press proposes: none for a key the recorder does not
/// take. The command key counts as `meta`. The combination is not yet
/// checked here: the caller must still have the recorder validate the
/// hotkey, and drop it where that check refuses it.
pub fn recorder_hotkey(key: HotkeyKey, physical: Option<HotkeyKey>, mods: HotkeyModifiers) -> (r:
    Option<Hotkey>)
    ensures
        match r {
            Some(h) => event_key_name(key, physical) == Some(h.key@) && h.ctrl == mods.ctrl && h.alt
                == mods.alt && h.shift == mods.shift && h.meta == mods.mac_cmd,
            None => event_key_name(key, physical) is None,
        },
{
    let physical_name = match physical {
        Some(p) => recorder_hotkey_key(p),
        None => None,
    };
    let name = match physical_name {
        Some(n) => Some(n),
        None => recorder_hotkey_key(key),
    };
    match name {
        Some(n) => Some(
            Hotkey {
                key: String::from_str(n),
                ctrl: mods.ctrl,
                alt: mods.alt,
                shift: mods.shift,
                meta: mods.mac_cmd,
            },
        ),
        None => None,
    }
}

} // verus!
