use wrinkle::cells::TargetCell;
use wrinkle::geometry::{Rect, XY, centered_origin};
use wrinkle::watcher::{CHROME_MASK, WindowId, accept_window, strip_chrome, title_matches};

#[test]
fn centering_formula_even_and_odd() {
    let origin = centered_origin(XY::new(960, 540), XY::new(384, 16384));
    assert_eq!(origin, XY { x: 768, y: -7652 });
    let odd = centered_origin(XY::new(11, 7), XY::new(5, 3));
    assert_eq!(odd, XY { x: 11 - 2, y: 7 - 1 });
}

#[test]
fn rect_center_truncates_toward_zero() {
    assert_eq!(Rect::new(0, 0, 5, 5).center(), XY { x: 2, y: 2 });
    assert_eq!(Rect::new(-5, -5, 0, 0).center(), XY { x: -2, y: -2 });
    assert_eq!(Rect::new(0, 0, 1920, 1080).center(), XY { x: 960, y: 540 });
}

#[test]
fn rect_size_and_origin() {
    let r = Rect::new(10, 20, 110, 220);
    assert_eq!(r.size(), XY { x: 100, y: 200 });
    assert_eq!(r.origin(), XY { x: 10, y: 20 });
}

#[test]
fn xy_arithmetic() {
    let a = XY::new(3, -7);
    let b = XY::new(10, 2);
    assert_eq!(a.add(b), XY { x: 13, y: -5 });
    assert_eq!(a.sub(b), XY { x: -7, y: -9 });
    assert_eq!(XY::new(-7, 7).div(2), XY { x: -3, y: 3 });
}

fn utf16(s: &str) -> Vec<u16> {
    s.encode_utf16().collect()
}

#[test]
fn title_prefix_match_is_exact_and_case_sensitive() {
    assert!(title_matches(&utf16("Minecraft* 1.16.1 - Multiplayer")));
    assert!(title_matches(&utf16("Minecraft*")));
    assert!(!title_matches(&utf16("Minecraft 1.16.1")));
    assert!(!title_matches(&utf16("minecraft* 1.16.1")));
    assert!(!title_matches(&utf16("Minecraf")));
    assert!(!title_matches(&utf16("")));
}

#[test]
fn strip_chrome_clears_decoration_bits() {
    assert_eq!(strip_chrome(0xFFFF_FFFF), 0xFFFF_FFFF & !0x00CF_0000);
    assert_eq!(strip_chrome(0x00CF_0000), 0);
    assert_eq!(strip_chrome(0x1234_0007), 0x1234_0007 & !CHROME_MASK);
    let once = strip_chrome(0xDEAD_BEEF);
    assert_eq!(strip_chrome(once), once);
}

#[test]
fn accept_window_strips_fills_and_publishes() {
    let cell = TargetCell::new();
    assert_eq!(cell.load(), None);
    let work = Rect::new(0, 0, 1920, 1080);
    let r = accept_window(&cell, WindowId(42), &utf16("Minecraft* 1.16.1"), 0x00CF_0103, work);
    let (style, origin, size) = r.expect("matching window accepted");
    assert_eq!(style, 0x0103);
    assert_eq!(origin, XY { x: 0, y: 0 });
    assert_eq!(size, XY { x: 1920, y: 1080 });
    assert_eq!(cell.load(), Some(WindowId(42)));
}

#[test]
fn accept_window_ignores_other_titles() {
    let cell = TargetCell::new();
    let work = Rect::new(0, 0, 1920, 1080);
    let r = accept_window(&cell, WindowId(7), &utf16("Notepad"), 0, work);
    assert!(r.is_none());
    assert_eq!(cell.load(), None);
}

#[test]
fn latest_published_target_wins() {
    let cell = TargetCell::new();
    let work = Rect::new(0, 0, 800, 600);
    accept_window(&cell, WindowId(1), &utf16("Minecraft* a"), 0, work);
    accept_window(&cell, WindowId(2), &utf16("Minecraft* b"), 0, work);
    assert_eq!(cell.load(), Some(WindowId(2)));
}
