//! Key events, modifier tracking, and hotkey filters.
//!
//! The raw keyboard listener window feeds make/break scan codes into a
//! [`KeyTracker`], which maintains the modifier state and turns letter-key
//! presses into [`KeyEvent`]s. A [`KeyFilter`] is the predicate a mode's
//! hotkey binding places on such events.

use vstd::prelude::*;

verus! {

/// Snapshot of the three modifier keys.
#[derive(Clone, Copy, Debug, PartialEq, Eq, Structural)]
pub struct Modifiers {
    pub shift: bool,
    pub ctrl: bool,
    pub alt: bool,
}

impl Default for Modifiers {
    /// All modifiers released.
    fn default() -> (r: Self)
        ensures
            r == (Modifiers { shift: false, ctrl: false, alt: false }),
    {
        Modifiers { shift: false, ctrl: false, alt: false }
    }
}

/// A key press: the translated character together with the modifier state at
/// the moment of the press.
#[derive(Clone, Copy, Debug, PartialEq, Eq, Structural)]
pub struct KeyEvent {
    pub char: char,
    pub modifiers: Modifiers,
}

/// A hotkey binding: a character, and optionally a required modifier state.
/// `modifiers == None` means any modifier state matches.
#[derive(Clone, Copy, Debug, PartialEq, Eq)]
pub struct KeyFilter {
    pub char: char,
    pub modifiers: Option<Modifiers>,
}

/// A filter accepts an event iff the characters agree and, when the filter
/// constrains modifiers, the modifier snapshots agree exactly.
pub open spec fn filter_matches(f: KeyFilter, e: KeyEvent) -> bool {
    &&& f.char == e.char
    &&& (f.modifiers is Some ==> f.modifiers->Some_0 == e.modifiers)
}

impl KeyFilter {
    /// Test a key event against this filter.
    pub fn test(self, ev: KeyEvent) -> (r: bool)
        ensures
            r == filter_matches(self, ev),
    {
        if self.char != ev.char {
            return false;
        }
        if let Some(modifiers) = self.modifiers {
            if modifiers != ev.modifiers {
                return false;
            }
        }
        true
    }
}

/// The modifier prefix of a key label, in fixed order: control, alt,
/// shift.
pub open spec fn spec_mods_label(m: Modifiers) -> Seq<char> {
    (if m.ctrl {
        "Ctrl+"@
    } else {
        Seq::<char>::empty()
    }) + (if m.alt {
        "Alt+"@
    } else {
        Seq::<char>::empty()
    }) + (if m.shift {
        "Shift+"@
    } else {
        Seq::<char>::empty()
    })
}

/// A filter's label: its modifier prefix — or `*+` when any modifier state
/// matches — followed by its character.
pub open spec fn spec_filter_label(f: KeyFilter) -> Seq<char> {
    (match f.modifiers {
        Some(m) => spec_mods_label(m),
        None => "*+"@,
    }).push(f.char)
}

/// An event's label: the pressed modifiers followed by the character.
pub open spec fn spec_event_label(e: KeyEvent) -> Seq<char> {
    spec_mods_label(e.modifiers).push(e.char)
}

/// Append the modifier prefix of a label.
fn append_mods_label(out: &mut String, m: Modifiers)
    ensures
        final(out)@ == old(out)@ + spec_mods_label(m),
{
    if m.ctrl {
        out.append("Ctrl+");
    }
    if m.alt {
        out.append("Alt+");
    }
    if m.shift {
        out.append("Shift+");
    }
    assert(final(out)@ =~= old(out)@ + spec_mods_label(m));
}

impl KeyFilter {
    /// Render this filter for display, e.g. `Ctrl+Shift+h` or `*+h`.
    pub fn label(&self) -> (r: String)
        ensures
            r@ == spec_filter_label(*self),
    {
        let mut out = String::new();
        match self.modifiers {
            Some(m) => append_mods_label(&mut out, m),
            None => out.append("*+"),
        }
        out.push(self.char);
        assert(out@ =~= spec_filter_label(*self));
        out
    }
}

impl KeyEvent {
    /// Render this event for display, e.g. `Shift+h`.
    pub fn label(&self) -> (r: String)
        ensures
            r@ == spec_event_label(*self),
    {
        let mut out = String::new();
        append_mods_label(&mut out, self.modifiers);
        out.push(self.char);
        assert(out@ =~= spec_event_label(*self));
        out
    }
}

/// The letter-key scan-code table: only the 26 letter keys produce events.
pub open spec fn spec_translate(code: u16) -> Option<char> {
    match code {
        0x10u16 => Some('q'),
        0x11u16 => Some('w'),
        0x12u16 => Some('e'),
        0x13u16 => Some('r'),
        0x14u16 => Some('t'),
        0x15u16 => Some('y'),
        0x16u16 => Some('u'),
        0x17u16 => Some('i'),
        0x18u16 => Some('o'),
        0x19u16 => Some('p'),
        0x1Eu16 => Some('a'),
        0x1Fu16 => Some('s'),
        0x20u16 => Some('d'),
        0x21u16 => Some('f'),
        0x22u16 => Some('g'),
        0x23u16 => Some('h'),
        0x24u16 => Some('j'),
        0x25u16 => Some('k'),
        0x26u16 => Some('l'),
        0x2Cu16 => Some('z'),
        0x2Du16 => Some('x'),
        0x2Eu16 => Some('c'),
        0x2Fu16 => Some('v'),
        0x30u16 => Some('b'),
        0x31u16 => Some('n'),
        0x32u16 => Some('m'),
        _ => None,
    }
}

/// Translate a keyboard scan code into the character it produces, if any.
pub fn translate(code: u16) -> (r: Option<char>)
    ensures
        r == spec_translate(code),
{
    match code {
        0x10u16 => Some('q'),
        0x11u16 => Some('w'),
        0x12u16 => Some('e'),
        0x13u16 => Some('r'),
        0x14u16 => Some('t'),
        0x15u16 => Some('y'),
        0x16u16 => Some('u'),
        0x17u16 => Some('i'),
        0x18u16 => Some('o'),
        0x19u16 => Some('p'),
        0x1Eu16 => Some('a'),
        0x1Fu16 => Some('s'),
        0x20u16 => Some('d'),
        0x21u16 => Some('f'),
        0x22u16 => Some('g'),
        0x23u16 => Some('h'),
        0x24u16 => Some('j'),
        0x25u16 => Some('k'),
        0x26u16 => Some('l'),
        0x2Cu16 => Some('z'),
        0x2Du16 => Some('x'),
        0x2Eu16 => Some('c'),
        0x2Fu16 => Some('v'),
        0x30u16 => Some('b'),
        0x31u16 => Some('n'),
        0x32u16 => Some('m'),
        _ => None,
    }
}

/// Scan code of the shift key.
pub const SHIFT_CODE: u16 = 0x2A;

/// Scan code of the control key.
pub const CTRL_CODE: u16 = 0x1D;

/// Scan code of the alt key.
pub const ALT_CODE: u16 = 0x38;

/// Modifier state after one raw make/break packet: a modifier's scan code
/// sets that modifier to "pressed" exactly when the break flag is absent
/// (`flags == 0`); every other code leaves the state unchanged.
pub open spec fn spec_track(m: Modifiers, code: u16, flags: u16) -> Modifiers {
    if code == SHIFT_CODE {
        Modifiers { shift: flags == 0, ..m }
    } else if code == CTRL_CODE {
        Modifiers { ctrl: flags == 0, ..m }
    } else if code == ALT_CODE {
        Modifiers { alt: flags == 0, ..m }
    } else {
        m
    }
}

/// Event emitted for one raw make/break packet: a letter key, on key-down
/// only, produces an event carrying the current modifier snapshot; modifier
/// keys and unknown codes produce nothing.
pub open spec fn spec_emit(m: Modifiers, code: u16, flags: u16) -> Option<KeyEvent> {
    if code == SHIFT_CODE || code == CTRL_CODE || code == ALT_CODE {
        None
    } else if flags == 0 && spec_translate(code) is Some {
        Some(KeyEvent { char: spec_translate(code)->Some_0, modifiers: m })
    } else {
        None
    }
}

/// The raw keyboard listener's state: the current modifier snapshot.
pub struct KeyTracker {
    pub modifiers: Modifiers,
}

impl KeyTracker {
    /// A fresh tracker: no modifier pressed.
    pub fn new() -> (r: Self)
        ensures
            r.modifiers == (Modifiers { shift: false, ctrl: false, alt: false }),
    {
        KeyTracker { modifiers: Modifiers { shift: false, ctrl: false, alt: false } }
    }

    /// Process one raw keyboard packet (scan code plus break flags):
    /// update the modifier state and emit the key event, if any.
    pub fn on_raw_key(&mut self, code: u16, flags: u16) -> (r: Option<KeyEvent>)
        ensures
            final(self).modifiers == spec_track(old(self).modifiers, code, flags),
            r == spec_emit(old(self).modifiers, code, flags),
    {
        if code == SHIFT_CODE {
            self.modifiers.shift = flags == 0;
            None
        } else if code == CTRL_CODE {
            self.modifiers.ctrl = flags == 0;
            None
        } else if code == ALT_CODE {
            self.modifiers.alt = flags == 0;
            None
        } else if flags != 0 {
            None
        } else {
            match translate(code) {
                Some(c) => Some(KeyEvent { char: c, modifiers: self.modifiers }),
                None => None,
            }
        }
    }
}

} // verus!
