//! Hotkey edge detection.
//!
//! A raw stream of physical key transitions for one watched key is turned
//! into logical `Pressed` / `Released` edges, collapsing key repeat.  The
//! platform listener that produces the raw events runs outside of this
//! crate and feeds them to [`Debouncer::handle`].

use vstd::prelude::*;
use vstd::string::StringExecFns;
use crate::text::{str_to_chars, lower_chars, chars_eq, lowered_seq};

verus! {

/// A logical hotkey edge: the watched key went down, or it went up.
#[derive(Debug, Clone, Copy, PartialEq, Eq, Structural)]
pub enum HotkeyEvent {
    Pressed,
    Released,
}

/// A physical key.  `Other` stands for any key outside the hotkey table;
/// the watched key is always a named variant, so events for unnamed keys
/// never match it.
#[derive(Debug, Clone, Copy, PartialEq, Eq, Structural)]
pub enum Key {
    AltGr,
    Alt,
    ControlLeft,
    ControlRight,
    ShiftLeft,
    ShiftRight,
    MetaLeft,
    CapsLock,
    F1,
    F2,
    F3,
    F4,
    F5,
    F6,
    F7,
    F8,
    F9,
    F10,
    F11,
    F12,
    Space,
    Escape,
    Other,
}

/// A raw key transition as the platform reports it.
#[derive(Debug, Clone, Copy, PartialEq, Eq, Structural)]
pub enum KeyEvent {
    Press(Key),
    Release(Key),
}

/// One step of the edge detector: from the current "is the watched key
/// down" state and a raw event to the next state and the emitted edge.
///
/// A `Pressed` edge is emitted exactly on the first key-down after each
/// key-up (or at the start); repeated key-downs emit nothing; a key-up
/// with no prior key-down emits nothing; events for other keys change
/// nothing and emit nothing.
pub open spec fn debounce_step(target: Key, pressed: bool, event: KeyEvent) -> (bool, Option<
    HotkeyEvent,
>) {
    match event {
        KeyEvent::Press(k) => if k == target && !pressed {
            (true, Some(HotkeyEvent::Pressed))
        } else {
            (pressed, None)
        },
        KeyEvent::Release(k) => if k == target && pressed {
            (false, Some(HotkeyEvent::Released))
        } else {
            (pressed, None)
        },
    }
}

/// The edges emitted when a whole event sequence is fed to the detector,
/// starting from the given state.
pub open spec fn debounce_run(target: Key, pressed: bool, events: Seq<KeyEvent>) -> Seq<
    HotkeyEvent,
>
    decreases events.len(),
{
    if events.len() == 0 {
        Seq::empty()
    } else {
        let step = debounce_step(target, pressed, events[0]);
        let head: Seq<HotkeyEvent> = match step.1 {
            Some(e) => seq![e],
            None => Seq::empty(),
        };
        head + debounce_run(target, step.0, events.drop_first())
    }
}

/// Whether a sequence of edges strictly alternates, the first one being
/// `Released` exactly when the key starts out held down.
pub open spec fn alternating_edges(from_pressed: bool, out: Seq<HotkeyEvent>) -> bool
    decreases out.len(),
{
    if out.len() == 0 {
        true
    } else {
        &&& out[0] == (if from_pressed {
            HotkeyEvent::Released
        } else {
            HotkeyEvent::Pressed
        })
        &&& alternating_edges(!from_pressed, out.drop_first())
    }
}

/// Law: whatever raw events arrive, the emitted edges alternate.  Started
/// from the initial (released) state this means every `Released` is
/// preceded by its own `Pressed`, and no edge is ever emitted twice in a
/// row.
pub proof fn lemma_debounce_alternates(target: Key, pressed: bool, events: Seq<KeyEvent>)
    ensures
        alternating_edges(pressed, debounce_run(target, pressed, events)),
    decreases events.len(),
{
    if events.len() > 0 {
        let step = debounce_step(target, pressed, events[0]);
        lemma_debounce_alternates(target, step.0, events.drop_first());
        match step.1 {
            Some(e) => {
                let out = debounce_run(target, pressed, events);
                assert(out == seq![e] + debounce_run(target, step.0, events.drop_first()));
                assert(out.drop_first() =~= debounce_run(target, step.0, events.drop_first()));
            },
            None => {},
        }
    }
}

/// The edge detector: tracks whether the watched key is currently down.
pub struct Debouncer {
    target: Key,
    pressed: bool,
}

impl Debouncer {
    /// The key this detector watches.
    pub closed spec fn spec_target(&self) -> Key {
        self.target
    }

    /// Whether the watched key is currently considered down.
    pub closed spec fn spec_pressed(&self) -> bool {
        self.pressed
    }

    /// A fresh detector: the watched key starts out released.
    pub fn new(target_key: Key) -> (r: Debouncer)
        ensures
            r.spec_target() == target_key,
            !r.spec_pressed(),
    {
        Debouncer { target: target_key, pressed: false }
    }

    /// Feed one raw event; the emitted edge and the state change are
    /// exactly those of [`debounce_step`].
    pub fn handle(&mut self, event: KeyEvent) -> (r: Option<HotkeyEvent>)
        ensures
            final(self).spec_target() == old(self).spec_target(),
            (final(self).spec_pressed(), r) == debounce_step(
                old(self).spec_target(),
                old(self).spec_pressed(),
                event,
            ),
    {
        match event {
            KeyEvent::Press(k) => {
                if k == self.target && !self.pressed {
                    self.pressed = true;
                    return Some(HotkeyEvent::Pressed);
                }
            },
            KeyEvent::Release(k) => {
                if k == self.target && self.pressed {
                    self.pressed = false;
                    return Some(HotkeyEvent::Released);
                }
            },
        }
        None
    }
}

/// The hotkey table: which key a configuration name denotes, after taking
/// the name to lowercase character by character.
pub open spec fn key_of_name(name: Seq<char>) -> Option<Key> {
    let f = lowered_seq(name);
    if f == "altgr"@ || f == "alt_gr"@ || f == "ralt"@ {
        Some(Key::AltGr)
    } else if f == "alt"@ || f == "lalt"@ {
        Some(Key::Alt)
    } else if f == "ctrl"@ || f == "lctrl"@ || f == "controlleft"@ {
        Some(Key::ControlLeft)
    } else if f == "rctrl"@ || f == "controlright"@ {
        Some(Key::ControlRight)
    } else if f == "shift"@ || f == "lshift"@ || f == "shiftleft"@ {
        Some(Key::ShiftLeft)
    } else if f == "rshift"@ || f == "shiftright"@ {
        Some(Key::ShiftRight)
    } else if f == "super"@ || f == "meta"@ || f == "metaleft"@ {
        Some(Key::MetaLeft)
    } else if f == "capslock"@ {
        Some(Key::CapsLock)
    } else if f == "f1"@ {
        Some(Key::F1)
    } else if f == "f2"@ {
        Some(Key::F2)
    } else if f == "f3"@ {
        Some(Key::F3)
    } else if f == "f4"@ {
        Some(Key::F4)
    } else if f == "f5"@ {
        Some(Key::F5)
    } else if f == "f6"@ {
        Some(Key::F6)
    } else if f == "f7"@ {
        Some(Key::F7)
    } else if f == "f8"@ {
        Some(Key::F8)
    } else if f == "f9"@ {
        Some(Key::F9)
    } else if f == "f10"@ {
        Some(Key::F10)
    } else if f == "f11"@ {
        Some(Key::F11)
    } else if f == "f12"@ {
        Some(Key::F12)
    } else if f == "space"@ {
        Some(Key::Space)
    } else if f == "escape"@ || f == "esc"@ {
        Some(Key::Escape)
    } else {
        None
    }
}

/// Whether the lowercased name equals the given table entry.
fn folded_is(folded: &Vec<char>, lit: &str) -> (r: bool)
    ensures
        r == (folded@ == lit@),
{
    let l = str_to_chars(lit);
    chars_eq(folded, &l)
}

/// Parse a configured hotkey name into a key, case-insensitively.
/// An unknown name is rejected with a message that repeats it.
pub fn parse_key(name: &str) -> (r: Result<Key, String>)
    ensures
        match r {
            Ok(k) => key_of_name(name@) == Some(k),
            Err(m) => key_of_name(name@) is None && m@ == "unknown hotkey: "@ + name@,
        },
{
    let chars = str_to_chars(name);
    let folded = lower_chars(&chars);
    if folded_is(&folded, "altgr") || folded_is(&folded, "alt_gr") || folded_is(&folded, "ralt") {
        Ok(Key::AltGr)
    } else if folded_is(&folded, "alt") || folded_is(&folded, "lalt") {
        Ok(Key::Alt)
    } else if folded_is(&folded, "ctrl") || folded_is(&folded, "lctrl") || folded_is(
        &folded,
        "controlleft",
    ) {
        Ok(Key::ControlLeft)
    } else if folded_is(&folded, "rctrl") || folded_is(&folded, "controlright") {
        Ok(Key::ControlRight)
    } else if folded_is(&folded, "shift") || folded_is(&folded, "lshift") || folded_is(
        &folded,
        "shiftleft",
    ) {
        Ok(Key::ShiftLeft)
    } else if folded_is(&folded, "rshift") || folded_is(&folded, "shiftright") {
        Ok(Key::ShiftRight)
    } else if folded_is(&folded, "super") || folded_is(&folded, "meta") || folded_is(
        &folded,
        "metaleft",
    ) {
        Ok(Key::MetaLeft)
    } else if folded_is(&folded, "capslock") {
        Ok(Key::CapsLock)
    } else if folded_is(&folded, "f1") {
        Ok(Key::F1)
    } else if folded_is(&folded, "f2") {
        Ok(Key::F2)
    } else if folded_is(&folded, "f3") {
        Ok(Key::F3)
    } else if folded_is(&folded, "f4") {
        Ok(Key::F4)
    } else if folded_is(&folded, "f5") {
        Ok(Key::F5)
    } else if folded_is(&folded, "f6") {
        Ok(Key::F6)
    } else if folded_is(&folded, "f7") {
        Ok(Key::F7)
    } else if folded_is(&folded, "f8") {
        Ok(Key::F8)
    } else if folded_is(&folded, "f9") {
        Ok(Key::F9)
    } else if folded_is(&folded, "f10") {
        Ok(Key::F10)
    } else if folded_is(&folded, "f11") {
        Ok(Key::F11)
    } else if folded_is(&folded, "f12") {
        Ok(Key::F12)
    } else if folded_is(&folded, "space") {
        Ok(Key::Space)
    } else if folded_is(&folded, "escape") || folded_is(&folded, "esc") {
        Ok(Key::Escape)
    } else {
        Err(String::from_str("unknown hotkey: ").concat(name))
    }
}

} // verus!
