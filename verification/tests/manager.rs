use wrinkle::cells::{ConfigCell, TargetCell};
use wrinkle::config::{Config, Hotkey, Resolution};
use wrinkle::geometry::{Rect, XY};
use wrinkle::keys::{KeyEvent, KeyFilter, Modifiers};
use wrinkle::manager::{Manager, match_hotkey, select_mode};
use wrinkle::settings::{rebind_color, rebind_hotkey, rebind_resolution};
use wrinkle::watcher::WindowId;

fn mods(shift: bool, ctrl: bool, alt: bool) -> Modifiers {
    Modifiers { shift, ctrl, alt }
}

fn event(c: char, m: Modifiers) -> KeyEvent {
    KeyEvent { char: c, modifiers: m }
}

#[test]
fn default_hotkeys_distinguish_modes_by_modifier() {
    let c = Config::default();
    assert_eq!(match_hotkey(&c, event('h', mods(false, false, false))), Some(Hotkey::Thin));
    assert_eq!(match_hotkey(&c, event('h', mods(true, false, false))), Some(Hotkey::Tall));
    assert_eq!(match_hotkey(&c, event('h', mods(false, true, false))), Some(Hotkey::Wide));
    assert_eq!(match_hotkey(&c, event('g', mods(false, false, false))), None);
    assert_eq!(match_hotkey(&c, event('h', mods(true, true, false))), None);
}

#[test]
fn tall_wins_when_filters_tie() {
    let same = Some(KeyFilter { char: 'h', modifiers: None });
    let mut c = Config::default();
    c.thin_key = same;
    c.tall_key = same;
    c.wide_key = same;
    assert_eq!(match_hotkey(&c, event('h', mods(false, false, false))), Some(Hotkey::Tall));
    c.tall_key = None;
    assert_eq!(match_hotkey(&c, event('h', mods(false, false, false))), Some(Hotkey::Thin));
    c.thin_key = None;
    assert_eq!(match_hotkey(&c, event('h', mods(false, false, false))), Some(Hotkey::Wide));
}

#[test]
fn toggling_same_mode_twice_restores_full_work_area() {
    let c = Config::default();
    let work = Rect::new(0, 0, 1920, 1080);
    let mut m = Manager::new();

    let first = m.update_state(&c, work, Hotkey::Tall);
    assert_eq!(first.mode, Some(Hotkey::Tall));
    assert_eq!(first.origin, XY { x: 768, y: -7652 });
    assert_eq!(first.size, XY { x: 384, y: 16384 });
    assert!(first.projector_visible);
    assert!(first.slow_mouse);

    let second = m.update_state(&c, work, Hotkey::Tall);
    assert_eq!(second.mode, None);
    assert_eq!(second.origin, XY { x: 0, y: 0 });
    assert_eq!(second.size, XY { x: 1920, y: 1080 });
    assert!(!second.projector_visible);
    assert!(!second.slow_mouse);
}

#[test]
fn switching_modes_recenters_to_new_size() {
    let c = Config::default();
    let work = Rect::new(0, 0, 1920, 1080);
    let mut m = Manager::new();
    m.update_state(&c, work, Hotkey::Tall);
    let u = m.update_state(&c, work, Hotkey::Wide);
    assert_eq!(u.mode, Some(Hotkey::Wide));
    assert_eq!(u.origin, XY { x: 0, y: 390 });
    assert_eq!(u.size, XY { x: 1920, y: 300 });
    assert!(u.projector_visible);
    assert!(!u.slow_mouse);
}

#[test]
fn pointer_override_follows_tall_mode_and_teardown_restores() {
    let c = Config::default();
    let work = Rect::new(0, 0, 1920, 1080);
    let mut m = Manager::new();
    assert!(!m.mouse_slowed);
    m.update_state(&c, work, Hotkey::Tall);
    assert!(m.mouse_slowed);
    m.update_state(&c, work, Hotkey::Thin);
    assert!(!m.mouse_slowed);
    m.update_state(&c, work, Hotkey::Tall);
    assert!(m.mouse_slowed);
    let slow = m.teardown();
    assert!(!slow);
    assert!(!m.mouse_slowed);
}

#[test]
fn no_selection_while_target_backgrounded() {
    let cfg = ConfigCell::new(Config::default());
    let target = TargetCell::new();
    target.store(WindowId(5));
    let ev = event('h', mods(true, false, false));

    let (_, _, matched) = select_mode(&cfg, &target, ev, Some(WindowId(6)));
    assert_eq!(matched, None);
    let (_, _, matched) = select_mode(&cfg, &target, ev, None);
    assert_eq!(matched, None);
    let (_, _, matched) = select_mode(&cfg, &target, ev, Some(WindowId(5)));
    assert_eq!(matched, Some(Hotkey::Tall));
}

#[test]
fn no_selection_without_a_target() {
    let cfg = ConfigCell::new(Config::default());
    let target = TargetCell::new();
    let ev = event('h', mods(false, false, false));
    let (_, t, matched) = select_mode(&cfg, &target, ev, Some(WindowId(5)));
    assert_eq!(t, None);
    assert_eq!(matched, None);
}

#[test]
fn config_accessors_roundtrip() {
    let c = Config::default();
    assert_eq!(c.get_hotkey(Hotkey::Thin), c.thin_key);
    let f = Some(KeyFilter { char: 'k', modifiers: None });
    let c2 = c.set_hotkey(Hotkey::Wide, f);
    assert_eq!(c2.get_hotkey(Hotkey::Wide), f);
    assert_eq!(c2.get_hotkey(Hotkey::Thin), c.thin_key);
    let r = Resolution::new(640, 480);
    let c3 = c2.set_resolution(Hotkey::Thin, r);
    assert_eq!(c3.get_resolution(Hotkey::Thin), r);
    assert_eq!(c3.get_resolution(Hotkey::Tall), c.tall);
}

#[test]
fn rebind_hotkey_publishes_captured_event() {
    let cell = ConfigCell::new(Config::default());
    let ev = event('j', mods(false, false, true));
    let (_, published) = rebind_hotkey(&cell, Hotkey::Thin, ev);
    let expected = Some(KeyFilter { char: 'j', modifiers: Some(mods(false, false, true)) });
    assert_eq!(published.thin_key, expected);
    assert_eq!(cell.load().thin_key, expected);
    assert_eq!(published.tall_key, Config::default().tall_key);
}

#[test]
fn rebind_resolution_accepts_valid_and_keeps_prior_on_error() {
    let cell = ConfigCell::new(Config::default());
    let r = rebind_resolution(&cell, Hotkey::Wide, b"1280x200");
    let (_, published) = r.expect("valid resolution accepted");
    assert_eq!(published.wide, Resolution::new(1280, 200));
    assert_eq!(cell.load().wide, Resolution::new(1280, 200));

    assert!(rebind_resolution(&cell, Hotkey::Wide, b"garbage").is_err());
    assert_eq!(cell.load().wide, Resolution::new(1280, 200));
}

#[test]
fn rebind_color_accepts_hex_and_keeps_prior_on_error() {
    let cell = ConfigCell::new(Config::default());
    let r = rebind_color(&cell, 1, b"#0A0B0C");
    let (_, published) = r.expect("valid color accepted");
    assert_eq!(published.colors[1], wrinkle::config::Color(0x0A, 0x0B, 0x0C));
    assert_eq!(published.colors[0], Config::default().colors[0]);

    assert!(rebind_color(&cell, 1, b"0A0B0C").is_none());
    assert_eq!(cell.load().colors[1], wrinkle::config::Color(0x0A, 0x0B, 0x0C));
}

#[test]
fn bootstrap_starts_idle() {
    let (m, cfg, target, _mode) = Manager::bootstrap(Config::default());
    assert_eq!(m.state, None);
    assert!(!m.mouse_slowed);
    assert_eq!(cfg.load(), Config::default());
    assert_eq!(target.load(), None);
}
