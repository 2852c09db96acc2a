use wrinkle::cells::ModeCell;
use wrinkle::config::Hotkey;
use wrinkle::geometry::{Rect, XY};
use wrinkle::projector::{
    projector_blits, projector_placement, publish_mode, ruler_cells,
};

#[test]
fn ruler_cells_for_three_ticks() {
    let cells = ruler_cells(600, 200, 3);
    assert_eq!(cells.len(), 6);
    let digits: Vec<u8> = cells.iter().map(|c| c.digit).collect();
    assert_eq!(digits, vec![3, 2, 1, 1, 2, 3]);
    let colors: Vec<usize> = cells.iter().map(|c| c.color_index).collect();
    assert_eq!(colors, vec![1, 0, 1, 0, 1, 0]);
    let lefts: Vec<i32> = cells.iter().map(|c| c.band.left).collect();
    assert_eq!(lefts, vec![270, 280, 290, 300, 310, 320]);
    let rights: Vec<i32> = cells.iter().map(|c| c.band.right).collect();
    assert_eq!(rights, vec![280, 290, 300, 310, 320, 330]);
    for c in cells.iter() {
        assert_eq!(c.band.top, 60);
        assert_eq!(c.band.bottom, 140);
    }
}

#[test]
fn ruler_digit_sequence_repeats_mod_ten() {
    let cells = ruler_cells(1200, 100, 12);
    let digits: Vec<u8> = cells.iter().map(|c| c.digit).collect();
    assert_eq!(
        digits,
        vec![2, 1, 0, 9, 8, 7, 6, 5, 4, 3, 2, 1, 1, 2, 3, 4, 5, 6, 7, 8, 9, 0, 1, 2]
    );
}

#[test]
fn ruler_with_no_ticks_is_empty() {
    assert_eq!(ruler_cells(600, 200, 0).len(), 0);
    assert_eq!(ruler_cells(600, 200, -4).len(), 0);
}

#[test]
fn placement_height_depends_on_tall() {
    let work = Rect::new(0, 0, 1920, 1080);
    let target = Rect::new(500, 0, 1920, 1080);

    let cell = ModeCell::new();
    publish_mode(&cell, Some(Hotkey::Tall));
    let (mode, p) = projector_placement(&cell, target, work);
    assert_eq!(mode, Some(Hotkey::Tall));
    assert_eq!(p.origin, XY { x: 0, y: 540 - 400 });
    assert_eq!(p.size, XY { x: 500, y: 800 });

    publish_mode(&cell, Some(Hotkey::Thin));
    let (_, p) = projector_placement(&cell, target, work);
    assert_eq!(p.origin, XY { x: 0, y: 540 - 700 });
    assert_eq!(p.size, XY { x: 500, y: 1400 });
}

#[test]
fn tall_mode_mirrors_centered_crop_and_shows_ruler() {
    let cell = ModeCell::new();
    assert!(publish_mode(&cell, Some(Hotkey::Tall)));
    let (mode, ruler_visible, ops) = projector_blits(
        &cell,
        XY::new(500, 800),
        XY::new(384, 16384),
    );
    assert_eq!(mode, Some(Hotkey::Tall));
    assert!(ruler_visible);
    assert_eq!(ops.len(), 1);
    let op = &ops[0];
    assert_eq!(op.dst_origin, XY { x: 0, y: 0 });
    assert_eq!(op.dst_size, XY { x: 500, y: 800 });
    assert_eq!(op.src_origin, XY { x: 192 - 30, y: 8192 - 250 });
    assert_eq!(op.src_size, XY { x: 60, y: 500 });
}

#[test]
fn thin_mode_mirrors_two_crops_without_ruler() {
    let cell = ModeCell::new();
    publish_mode(&cell, Some(Hotkey::Thin));
    let (_, ruler_visible, ops) = projector_blits(&cell, XY::new(440, 1400), XY::new(400, 1800));
    assert!(!ruler_visible);
    assert_eq!(ops.len(), 2);
    let band = 440 / 11;
    assert_eq!(ops[0].dst_origin, XY { x: 0, y: 0 });
    assert_eq!(ops[0].dst_size, XY { x: 440, y: band });
    assert_eq!(ops[0].src_origin, XY { x: 0, y: 37 });
    assert_eq!(ops[0].src_size, XY { x: 99, y: 9 });
    assert_eq!(ops[1].dst_origin, XY { x: 0, y: band });
    assert_eq!(ops[1].dst_size, XY { x: 440, y: 1400 - band });
    assert_eq!(ops[1].src_origin, XY { x: 400 - 340, y: 1800 - 420 });
    assert_eq!(ops[1].src_size, XY { x: 340, y: 420 });
}

#[test]
fn wide_and_no_mode_mirror_nothing() {
    let cell = ModeCell::new();
    publish_mode(&cell, Some(Hotkey::Wide));
    let (_, ruler_visible, ops) = projector_blits(&cell, XY::new(500, 1400), XY::new(1920, 300));
    assert!(!ruler_visible);
    assert!(ops.is_empty());

    assert!(!publish_mode(&cell, None));
    let (mode, ruler_visible, ops) = projector_blits(&cell, XY::new(500, 1400), XY::new(1920, 300));
    assert_eq!(mode, None);
    assert!(!ruler_visible);
    assert!(ops.is_empty());
}
