//! Hotkey name parsing and edge detection.

use dictr::hotkey::{parse_key, Debouncer, HotkeyEvent, Key, KeyEvent};

#[test]
fn parse_altgr_variants() {
    assert_eq!(parse_key("AltGr").unwrap(), Key::AltGr);
    assert_eq!(parse_key("altgr").unwrap(), Key::AltGr);
    assert_eq!(parse_key("alt_gr").unwrap(), Key::AltGr);
    assert_eq!(parse_key("ralt").unwrap(), Key::AltGr);
}

#[test]
fn parse_modifiers() {
    assert_eq!(parse_key("ctrl").unwrap(), Key::ControlLeft);
    assert_eq!(parse_key("rctrl").unwrap(), Key::ControlRight);
    assert_eq!(parse_key("shift").unwrap(), Key::ShiftLeft);
    assert_eq!(parse_key("super").unwrap(), Key::MetaLeft);
}

#[test]
fn parse_function_keys() {
    assert_eq!(parse_key("f1").unwrap(), Key::F1);
    assert_eq!(parse_key("F9").unwrap(), Key::F9);
    assert_eq!(parse_key("F12").unwrap(), Key::F12);
}

#[test]
fn parse_case_insensitive() {
    assert_eq!(parse_key("CAPSLOCK").unwrap(), Key::CapsLock);
    assert_eq!(parse_key("Space").unwrap(), Key::Space);
    assert_eq!(parse_key("ESCAPE").unwrap(), Key::Escape);
    assert_eq!(parse_key("esc").unwrap(), Key::Escape);
}

#[test]
fn parse_unknown_key_fails() {
    assert!(parse_key("nonexistent").is_err());
    assert!(parse_key("").is_err());
}

#[test]
fn parse_unknown_key_message_names_the_hotkey() {
    let err = parse_key("nonexistent").unwrap_err();
    assert_eq!(err, "unknown hotkey: nonexistent");
}

#[test]
fn debounce_repeated_press_emits_once() {
    let mut d = Debouncer::new(Key::AltGr);
    // First press emits
    assert_eq!(
        d.handle(KeyEvent::Press(Key::AltGr)),
        Some(HotkeyEvent::Pressed)
    );
    // Key repeat: subsequent presses without release are suppressed
    assert_eq!(d.handle(KeyEvent::Press(Key::AltGr)), None);
    assert_eq!(d.handle(KeyEvent::Press(Key::AltGr)), None);
    assert_eq!(d.handle(KeyEvent::Press(Key::AltGr)), None);
    // Release emits
    assert_eq!(
        d.handle(KeyEvent::Release(Key::AltGr)),
        Some(HotkeyEvent::Released)
    );
}

#[test]
fn debounce_release_without_press_ignored() {
    let mut d = Debouncer::new(Key::AltGr);
    assert_eq!(d.handle(KeyEvent::Release(Key::AltGr)), None);
}

#[test]
fn debounce_ignores_other_keys() {
    let mut d = Debouncer::new(Key::AltGr);
    assert_eq!(d.handle(KeyEvent::Press(Key::Space)), None);
    assert_eq!(d.handle(KeyEvent::Release(Key::Space)), None);
}

#[test]
fn debounce_press_release_press_cycle() {
    let mut d = Debouncer::new(Key::F9);
    assert_eq!(
        d.handle(KeyEvent::Press(Key::F9)),
        Some(HotkeyEvent::Pressed)
    );
    assert_eq!(
        d.handle(KeyEvent::Release(Key::F9)),
        Some(HotkeyEvent::Released)
    );
    assert_eq!(
        d.handle(KeyEvent::Press(Key::F9)),
        Some(HotkeyEvent::Pressed)
    );
    assert_eq!(
        d.handle(KeyEvent::Release(Key::F9)),
        Some(HotkeyEvent::Released)
    );
}

#[test]
fn debounce_emitted_edges_alternate() {
    // A noisy stream of raw events still yields strictly alternating
    // edges, starting with Pressed.
    let mut d = Debouncer::new(Key::Space);
    let stream = [
        KeyEvent::Release(Key::Space),
        KeyEvent::Press(Key::Space),
        KeyEvent::Press(Key::Space),
        KeyEvent::Press(Key::F1),
        KeyEvent::Release(Key::F1),
        KeyEvent::Release(Key::Space),
        KeyEvent::Release(Key::Space),
        KeyEvent::Press(Key::Space),
    ];
    let mut edges = Vec::new();
    for ev in stream {
        if let Some(e) = d.handle(ev) {
            edges.push(e);
        }
    }
    assert_eq!(
        edges,
        vec![
            HotkeyEvent::Pressed,
            HotkeyEvent::Released,
            HotkeyEvent::Pressed
        ]
    );
}
