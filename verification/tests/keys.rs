use wrinkle::keys::{KeyEvent, KeyFilter, KeyTracker, Modifiers, translate};

fn mods(shift: bool, ctrl: bool, alt: bool) -> Modifiers {
    Modifiers { shift, ctrl, alt }
}

#[test]
fn filter_matches_same_char_and_modifiers() {
    let f = KeyFilter { char: 'h', modifiers: Some(mods(true, false, false)) };
    let e = KeyEvent { char: 'h', modifiers: mods(true, false, false) };
    assert!(f.test(e));
}

#[test]
fn filter_rejects_other_char() {
    let f = KeyFilter { char: 'h', modifiers: Some(mods(false, false, false)) };
    let e = KeyEvent { char: 'g', modifiers: mods(false, false, false) };
    assert!(!f.test(e));
}

#[test]
fn filter_rejects_modifier_mismatch() {
    let f = KeyFilter { char: 'h', modifiers: Some(mods(false, false, false)) };
    let e = KeyEvent { char: 'h', modifiers: mods(true, false, false) };
    assert!(!f.test(e));
}

#[test]
fn filter_without_constraint_matches_any_modifiers() {
    let f = KeyFilter { char: 'h', modifiers: None };
    assert!(f.test(KeyEvent { char: 'h', modifiers: mods(false, false, false) }));
    assert!(f.test(KeyEvent { char: 'h', modifiers: mods(true, true, true) }));
    assert!(!f.test(KeyEvent { char: 'x', modifiers: mods(true, true, true) }));
}

#[test]
fn translate_letter_keys() {
    assert_eq!(translate(0x10), Some('q'));
    assert_eq!(translate(0x23), Some('h'));
    assert_eq!(translate(0x32), Some('m'));
    assert_eq!(translate(0x2C), Some('z'));
}

#[test]
fn translate_other_keys_produce_nothing() {
    assert_eq!(translate(0x01), None);
    assert_eq!(translate(0x0F), None);
    assert_eq!(translate(0x39), None);
}

#[test]
fn tracker_updates_modifiers_and_emits_on_key_down() {
    let mut t = KeyTracker::new();
    assert_eq!(t.on_raw_key(0x2A, 0), None);
    assert!(t.modifiers.shift);
    let ev = t.on_raw_key(0x23, 0);
    assert_eq!(ev, Some(KeyEvent { char: 'h', modifiers: mods(true, false, false) }));
    assert_eq!(t.on_raw_key(0x2A, 1), None);
    assert!(!t.modifiers.shift);
    let ev2 = t.on_raw_key(0x23, 0);
    assert_eq!(ev2, Some(KeyEvent { char: 'h', modifiers: mods(false, false, false) }));
}

#[test]
fn tracker_ignores_key_up_and_unknown_codes() {
    let mut t = KeyTracker::new();
    assert_eq!(t.on_raw_key(0x23, 1), None);
    assert_eq!(t.on_raw_key(0x01, 0), None);
    let mut u = KeyTracker::new();
    assert_eq!(u.on_raw_key(0x1D, 0), None);
    assert!(u.modifiers.ctrl);
    assert_eq!(u.on_raw_key(0x38, 0), None);
    assert!(u.modifiers.alt);
}

#[test]
fn filter_label_lists_modifiers_in_order() {
    let f = KeyFilter { char: 'h', modifiers: Some(mods(true, true, true)) };
    assert_eq!(f.label(), "Ctrl+Alt+Shift+h");
    let g = KeyFilter { char: 'q', modifiers: Some(mods(false, false, false)) };
    assert_eq!(g.label(), "q");
    let any = KeyFilter { char: 'w', modifiers: None };
    assert_eq!(any.label(), "*+w");
}

#[test]
fn event_label_lists_pressed_modifiers() {
    let e = KeyEvent { char: 'h', modifiers: mods(true, false, true) };
    assert_eq!(e.label(), "Alt+Shift+h");
}
