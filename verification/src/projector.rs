//! Projector and ruler compositor geometry.
//!
//! The projector overlay mirrors a cropped, scaled region of the target
//! window's surface; the ruler overlay draws a tick strip with alternating
//! accent colors and repeating digit labels. The platform side owns the
//! device surfaces and the paint loop; this module computes, exactly, where
//! everything goes: the overlay placement, the crop/stretch rectangles for
//! each mode, and every ruler cell with its color index and digit.

use vstd::prelude::*;

use crate::cells::ModeCell;
use crate::config::Hotkey;
use crate::geometry::{Rect, XY, div_trunc, lemma_div_trunc_in_range, rem_trunc, spec_center_y};

verus! {

/// The ruler strip is divided into this many cells across its width.
pub const RULER_DIVISIONS: i32 = 60;

/// Overlay height while the mode is Tall.
pub const PROJECTOR_HEIGHT_TALL: i32 = 800;

/// Overlay height for every other mode.
pub const PROJECTOR_HEIGHT_OTHER: i32 = 1400;

/// One tick cell of the ruler: its screen band, which accent color fills
/// it, and the digit drawn over it.
#[derive(Clone, Copy, Debug, PartialEq, Eq, Structural)]
pub struct RulerCell {
    /// The filled band of this cell.
    pub band: Rect,
    /// Index into the two configured accent colors: `(i % 2).abs()` for
    /// tick offset `i`.
    pub color_index: usize,
    /// The label digit: `(i + 1) % 10` for `i >= 0`, `(-i) % 10` for
    /// `i < 0`.
    pub digit: u8,
}

/// Accent color index of tick offset `i`: the absolute value of the Rust
/// remainder `i % 2`.
pub open spec fn spec_tick_color(i: int) -> int {
    vstd::math::abs(rem_trunc(i, 2)) as int
}

/// Label digit of tick offset `i`.
pub open spec fn spec_tick_digit(i: int) -> int {
    (if i >= 0 {
        i + 1
    } else {
        -i
    }) % 10
}

/// The cell of tick offset `i` on a ruler window of the given width and
/// height: the band runs from `w/2 + i*w/60` to `w/2 + (i+1)*w/60`
/// horizontally and spans 40 pixels either side of mid-height, with all
/// divisions truncating.
pub open spec fn spec_cell_ok(w: int, h: int, i: int, cell: RulerCell) -> bool {
    &&& cell.band.left == div_trunc(w, 2) + div_trunc(i * w, RULER_DIVISIONS as int)
    &&& cell.band.right == div_trunc(w, 2) + div_trunc((i + 1) * w, RULER_DIVISIONS as int)
    &&& cell.band.top == div_trunc(h, 2) - 40
    &&& cell.band.bottom == div_trunc(h, 2) + 40
    &&& cell.color_index == spec_tick_color(i)
    &&& cell.digit == spec_tick_digit(i)
}

/// A quotient by a positive divisor of a magnitude-bounded value is itself
/// magnitude-bounded by the same bound's quotient.
proof fn lemma_div_trunc_magnitude(a: int, b: int, bound: int)
    requires
        b >= 1,
        0 <= bound,
        -bound <= a <= bound,
    ensures
        -(bound / b) <= div_trunc(a, b) <= bound / b,
{
    if a >= 0 {
        vstd::arithmetic::div_mod::lemma_div_pos_is_pos(a, b);
        vstd::arithmetic::div_mod::lemma_div_is_ordered(a, bound, b);
        vstd::arithmetic::div_mod::lemma_div_pos_is_pos(bound, b);
    } else {
        vstd::arithmetic::div_mod::lemma_div_pos_is_pos(-a, b);
        vstd::arithmetic::div_mod::lemma_div_is_ordered(-a, bound, b);
        vstd::arithmetic::div_mod::lemma_div_pos_is_pos(bound, b);
    }
}

/// Compute all `2*n` ruler cells for tick offsets `-n .. n`, in offset
/// order. A nonpositive tick count yields no cells.
pub fn ruler_cells(width: i32, height: i32, n: i32) -> (r: Vec<RulerCell>)
    requires
        0 <= width,
        n * width <= i32::MAX,
        height <= i32::MAX - 80,
    ensures
        r@.len() == (if n <= 0 {
            0int
        } else {
            2 * n
        }),
        forall|k: int| 0 <= k < r@.len() ==> spec_cell_ok(
            width as int,
            height as int,
            k - n,
            #[trigger] r@[k],
        ),
{
    let mut r: Vec<RulerCell> = Vec::new();
    if n <= 0 {
        return r;
    }
    let half_w: i32 = width / 2;
    let band_top: i32 = height / 2 - 40;
    let band_bottom: i32 = height / 2 + 40;
    proof {
        lemma_div_trunc_in_range(height as int, 2);
    }
    let mut i: i32 = -n;
    while i < n
        invariant
            0 < n,
            -n <= i <= n,
            0 <= width,
            n * width <= i32::MAX,
            height <= i32::MAX - 80,
            half_w == div_trunc(width as int, 2),
            band_top == div_trunc(height as int, 2) - 40,
            band_bottom == div_trunc(height as int, 2) + 40,
            r@.len() == i + n,
            forall|k: int| 0 <= k < r@.len() ==> spec_cell_ok(
                width as int,
                height as int,
                k - n,
                #[trigger] r@[k],
            ),
        decreases n - i,
    {
        proof {
            if i >= 0 {
                vstd::arithmetic::mul::lemma_mul_inequality(i as int, n as int, width as int);
                vstd::arithmetic::mul::lemma_mul_inequality(
                    i + 1,
                    n as int,
                    width as int,
                );
                vstd::arithmetic::mul::lemma_mul_nonnegative(i as int, width as int);
                vstd::arithmetic::mul::lemma_mul_nonnegative(i + 1, width as int);
            } else {
                vstd::arithmetic::mul::lemma_mul_inequality(-i as int, n as int, width as int);
                vstd::arithmetic::mul::lemma_mul_inequality(-(i + 1), n as int, width as int);
                vstd::arithmetic::mul::lemma_mul_nonnegative(-i as int, width as int);
                vstd::arithmetic::mul::lemma_mul_nonnegative(-(i + 1), width as int);
                assert((-i) * width == -(i * width)) by (nonlinear_arith);
                assert((-(i + 1)) * (width as int) == -((i + 1) * width)) by (nonlinear_arith);
            }
            lemma_div_trunc_magnitude(i * width, RULER_DIVISIONS as int, i32::MAX as int);
            lemma_div_trunc_magnitude((i + 1) * width, RULER_DIVISIONS as int, i32::MAX as int);
            lemma_div_trunc_in_range(width as int, 2);
        }
        let cell_left: i32 = half_w + (i * width) / RULER_DIVISIONS;
        let cell_right: i32 = half_w + ((i + 1) * width) / RULER_DIVISIONS;
        let color_index: usize = if i % 2 == 0 {
            0
        } else {
            1
        };
        let label_base: i32 = if i >= 0 {
            i + 1
        } else {
            -i
        };
        let digit: u8 = (label_base % 10) as u8;
        proof {
            assert(spec_tick_color(i as int) == (if rem_trunc(i as int, 2) == 0 {
                0int
            } else {
                1int
            }));
        }
        r.push(RulerCell {
            band: Rect { left: cell_left, top: band_top, right: cell_right, bottom: band_bottom },
            color_index,
            digit,
        });
        i = i + 1;
    }
    r
}

/// Where the projector overlay goes and how big it is.
#[derive(Clone, Copy, Debug, PartialEq, Eq, Structural)]
pub struct Placement {
    /// Top-left corner of the overlay.
    pub origin: XY,
    /// Size of the overlay; the ruler is positioned to exactly cover it.
    pub size: XY,
}

/// The overlay placement for a mode: flush against the left screen edge,
/// as wide as the gap between the work area's left edge and the target
/// window, vertically centered on the work area, with the height fixed by
/// whether the mode is Tall.
pub open spec fn spec_placement_ok(
    mode: Option<Hotkey>,
    target_rect: Rect,
    work: Rect,
    p: Placement,
) -> bool {
    let h = if mode == Some(Hotkey::Tall) {
        PROJECTOR_HEIGHT_TALL as int
    } else {
        PROJECTOR_HEIGHT_OTHER as int
    };
    &&& p.size.x == target_rect.left - work.left
    &&& p.size.y == h
    &&& p.origin.x == 0
    &&& p.origin.y == spec_center_y(work) - div_trunc(h, 2)
}

/// On becoming visible the projector reads the published mode and computes
/// its own placement from the target's current rectangle and the monitor
/// work area. The returned mode is the snapshot that was read.
pub fn projector_placement(mode_cell: &ModeCell, target_rect: Rect, work: Rect) -> (r: (
    Option<Hotkey>,
    Placement,
))
    requires
        i32::MIN <= target_rect.left - work.left <= i32::MAX,
        i32::MIN + 700 <= spec_center_y(work),
    ensures
        spec_placement_ok(r.0, target_rect, work, r.1),
{
    let mode = mode_cell.load();
    let projector_width: i32 = target_rect.left - work.left;
    let tall = match mode {
        Some(Hotkey::Tall) => true,
        _ => false,
    };
    let projector_height: i32 = if tall {
        PROJECTOR_HEIGHT_TALL
    } else {
        PROJECTOR_HEIGHT_OTHER
    };
    let cy: i32 = work.center().y;
    let placement = Placement {
        origin: XY { x: 0, y: cy - projector_height / 2 },
        size: XY { x: projector_width, y: projector_height },
    };
    (mode, placement)
}

/// One stretch-copy from the target's surface onto the overlay's surface.
#[derive(Clone, Copy, Debug, PartialEq, Eq, Structural)]
pub struct BlitOp {
    /// Top-left corner of the destination region on the overlay.
    pub dst_origin: XY,
    /// Size of the destination region.
    pub dst_size: XY,
    /// Top-left corner of the cropped source region on the target.
    pub src_origin: XY,
    /// Size of the cropped source region.
    pub src_size: XY,
}

/// Tall mode mirrors one crop: a 60-by-500 region centered on the target,
/// stretched over the whole overlay.
pub open spec fn spec_tall_blit(self_size: XY, target_size: XY, op: BlitOp) -> bool {
    &&& op.dst_origin == (XY { x: 0, y: 0 })
    &&& op.dst_size == self_size
    &&& op.src_origin.x == div_trunc(target_size.x as int, 2) - 30
    &&& op.src_origin.y == div_trunc(target_size.y as int, 2) - 250
    &&& op.src_size == (XY { x: 60, y: 500 })
}

/// Thin mode mirrors two crops, stacked: a fixed 99-by-9 strip near the
/// target's top-left stretched to a band of height `w/11` across the top
/// of the overlay, and the target's bottom-right 340-by-420 corner
/// stretched over the rest.
pub open spec fn spec_thin_blits(self_size: XY, target_size: XY, first: BlitOp, second: BlitOp) -> bool {
    let band = div_trunc(self_size.x as int, 11);
    &&& first.dst_origin == (XY { x: 0, y: 0 })
    &&& first.dst_size.x == self_size.x
    &&& first.dst_size.y == band
    &&& first.src_origin == (XY { x: 0, y: 37 })
    &&& first.src_size == (XY { x: 99, y: 9 })
    &&& second.dst_origin.x == 0
    &&& second.dst_origin.y == band
    &&& second.dst_size.x == self_size.x
    &&& second.dst_size.y == self_size.y - band
    &&& second.src_origin.x == target_size.x - 340
    &&& second.src_origin.y == target_size.y - 420
    &&& second.src_size == (XY { x: 340, y: 420 })
}

/// On every paint tick the projector reads the published mode, toggles the
/// ruler to be visible exactly in Tall mode, and mirrors the mode's crop
/// regions; Wide mode and no mode mirror nothing. The returned mode is the
/// snapshot that was read.
pub fn projector_blits(mode_cell: &ModeCell, self_size: XY, target_size: XY) -> (r: (
    Option<Hotkey>,
    bool,
    Vec<BlitOp>,
))
    requires
        i32::MIN <= div_trunc(target_size.x as int, 2) - 30,
        i32::MIN <= div_trunc(target_size.y as int, 2) - 250,
        i32::MIN <= target_size.x - 340,
        i32::MIN <= target_size.y - 420,
        i32::MIN <= self_size.y - div_trunc(self_size.x as int, 11) <= i32::MAX,
    ensures
        r.1 == (r.0 == Some(Hotkey::Tall)),
        r.0 == Some(Hotkey::Tall) ==> r.2@.len() == 1 && spec_tall_blit(
            self_size,
            target_size,
            r.2@[0],
        ),
        r.0 == Some(Hotkey::Thin) ==> r.2@.len() == 2 && spec_thin_blits(
            self_size,
            target_size,
            r.2@[0],
            r.2@[1],
        ),
        (r.0 == Some(Hotkey::Wide) || r.0 is None) ==> r.2@.len() == 0,
{
    let mode = mode_cell.load();
    let mut ops: Vec<BlitOp> = Vec::new();
    let ruler_visible: bool;
    match mode {
        Some(Hotkey::Tall) => {
            ruler_visible = true;
            proof {
                lemma_div_trunc_in_range(target_size.x as int, 2);
                lemma_div_trunc_in_range(target_size.y as int, 2);
            }
            ops.push(BlitOp {
                dst_origin: XY { x: 0, y: 0 },
                dst_size: self_size,
                src_origin: XY {
                    x: target_size.x / 2 - 30,
                    y: target_size.y / 2 - 250,
                },
                src_size: XY { x: 60, y: 500 },
            });
        },
        Some(Hotkey::Thin) => {
            ruler_visible = false;
            proof {
                lemma_div_trunc_in_range(self_size.x as int, 11);
            }
            let band: i32 = self_size.x / 11;
            ops.push(BlitOp {
                dst_origin: XY { x: 0, y: 0 },
                dst_size: XY { x: self_size.x, y: band },
                src_origin: XY { x: 0, y: 37 },
                src_size: XY { x: 99, y: 9 },
            });
            ops.push(BlitOp {
                dst_origin: XY { x: 0, y: band },
                dst_size: XY { x: self_size.x, y: self_size.y - band },
                src_origin: XY { x: target_size.x - 340, y: target_size.y - 420 },
                src_size: XY { x: 340, y: 420 },
            });
        },
        _ => {
            ruler_visible = false;
        },
    }
    (mode, ruler_visible, ops)
}

/// Publish a new mode for the compositor and report whether the projector
/// overlay should be visible: exactly when some mode is active.
pub fn publish_mode(mode_cell: &ModeCell, mode: Option<Hotkey>) -> (visible: bool)
    ensures
        visible == (mode is Some),
{
    mode_cell.store(mode);
    match mode {
        Some(_) => true,
        None => false,
    }
}

} // verus!
