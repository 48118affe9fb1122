use clip_engine::hotkeys::{recorder_hotkey, recorder_hotkey_key, HotkeyKey, HotkeyModifiers};

const NONE: HotkeyModifiers = HotkeyModifiers { ctrl: false, alt: false, shift: false, mac_cmd: false };

#[test]
fn hotkey_keeps_key_and_modifiers() {
    let mods = HotkeyModifiers { ctrl: true, alt: true, shift: true, mac_cmd: false };
    let hotkey = recorder_hotkey(HotkeyKey::S, Some(HotkeyKey::S), mods).unwrap();
    assert_eq!(hotkey.key, "S");
    assert!(hotkey.ctrl && hotkey.alt && hotkey.shift && !hotkey.meta);
}

#[test]
fn hotkey_uses_the_physical_punctuation_key() {
    let mods = HotkeyModifiers { shift: true, ..NONE };
    let hotkey = recorder_hotkey(HotkeyKey::Plus, Some(HotkeyKey::Equals), mods).unwrap();
    assert_eq!(hotkey.key, "=");
    assert!(hotkey.shift);
    // a physical key the recorder does not take falls back to the logical one
    let hotkey = recorder_hotkey(HotkeyKey::Questionmark, Some(HotkeyKey::Other), NONE).unwrap();
    assert_eq!(hotkey.key, "/");
    let hotkey = recorder_hotkey(HotkeyKey::F5, None, HotkeyModifiers { mac_cmd: true, ..NONE }).unwrap();
    assert_eq!(hotkey.key, "F5");
    assert!(hotkey.meta);
}

#[test]
fn hotkey_ignores_keys_the_recorder_does_not_take() {
    let ctrl = HotkeyModifiers { ctrl: true, ..NONE };
    assert!(recorder_hotkey(HotkeyKey::Other, Some(HotkeyKey::Other), ctrl).is_none());
    assert!(recorder_hotkey(HotkeyKey::Other, None, NONE).is_none());
}

#[test]
fn key_names() {
    assert_eq!(recorder_hotkey_key(HotkeyKey::ArrowDown), Some("Down"));
    assert_eq!(recorder_hotkey_key(HotkeyKey::Pipe), Some("\\"));
    assert_eq!(recorder_hotkey_key(HotkeyKey::IntlBackslash), Some("\\"));
    assert_eq!(recorder_hotkey_key(HotkeyKey::Exclamationmark), Some("1"));
    assert_eq!(recorder_hotkey_key(HotkeyKey::CloseCurlyBracket), Some("]"));
    assert_eq!(recorder_hotkey_key(HotkeyKey::Num0), Some("0"));
    assert_eq!(recorder_hotkey_key(HotkeyKey::F24), Some("F24"));
    assert_eq!(recorder_hotkey_key(HotkeyKey::Other), None);
}
