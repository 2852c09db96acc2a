//! Screen geometry: points/sizes, rectangles, and the centering arithmetic
//! that places a mode's window on the monitor work area.
//!
//! All geometry derives from a monitor work rectangle and a target size;
//! rectangles are never stored standalone. Division follows Rust's exec
//! semantics (truncation toward zero), modelled by [`div_trunc`].

use vstd::prelude::*;

verus! {

/// Rust's truncating integer division (rounds toward zero), as a spec-level
/// function of mathematical integers. Verus's spec `/` is Euclidean; this
/// wraps it to match what exec `/` computes on signed operands.
pub open spec fn div_trunc(a: int, b: int) -> int {
    if a >= 0 {
        a / b
    } else {
        -((-a) / b)
    }
}

/// Rust's truncating remainder, the companion of [`div_trunc`].
pub open spec fn rem_trunc(a: int, b: int) -> int {
    a - b * div_trunc(a, b)
}

/// A point or extent in screen pixels.
#[derive(Clone, Copy, Debug, PartialEq, Eq, Structural)]
pub struct XY {
    pub x: i32,
    pub y: i32,
}

impl XY {
    /// Pair a horizontal and a vertical extent.
    pub fn new(x: i32, y: i32) -> (r: Self)
        ensures
            r == (XY { x, y }),
    {
        XY { x, y }
    }

    /// Componentwise sum.
    pub fn add(self, rhs: Self) -> (r: Self)
        requires
            i32::MIN <= self.x + rhs.x <= i32::MAX,
            i32::MIN <= self.y + rhs.y <= i32::MAX,
        ensures
            r.x == self.x + rhs.x,
            r.y == self.y + rhs.y,
    {
        XY { x: self.x + rhs.x, y: self.y + rhs.y }
    }

    /// Componentwise difference.
    pub fn sub(self, rhs: Self) -> (r: Self)
        requires
            i32::MIN <= self.x - rhs.x <= i32::MAX,
            i32::MIN <= self.y - rhs.y <= i32::MAX,
        ensures
            r.x == self.x - rhs.x,
            r.y == self.y - rhs.y,
    {
        XY { x: self.x - rhs.x, y: self.y - rhs.y }
    }

    /// Componentwise truncating division by a positive scalar.
    pub fn div(self, rhs: i32) -> (r: Self)
        requires
            rhs >= 1,
        ensures
            r.x == div_trunc(self.x as int, rhs as int),
            r.y == div_trunc(self.y as int, rhs as int),
    {
        proof {
            lemma_div_trunc_in_range(self.x as int, rhs as int);
            lemma_div_trunc_in_range(self.y as int, rhs as int);
        }
        XY { x: self.x / rhs, y: self.y / rhs }
    }
}

/// Dividing an `i32`-range value by a positive divisor stays between the
/// dividend and zero, so the quotient is again in `i32` range.
pub proof fn lemma_div_trunc_in_range(a: int, b: int)
    requires
        i32::MIN <= a <= i32::MAX,
        b >= 1,
    ensures
        i32::MIN <= div_trunc(a, b) <= i32::MAX,
        a >= 0 ==> 0 <= div_trunc(a, b) <= a,
        a < 0 ==> a <= div_trunc(a, b) <= 0,
{
    if a >= 0 {
        vstd::arithmetic::div_mod::lemma_div_pos_is_pos(a, b);
        vstd::arithmetic::div_mod::lemma_div_nonincreasing(a, b);
    } else {
        vstd::arithmetic::div_mod::lemma_div_pos_is_pos(-a, b);
        vstd::arithmetic::div_mod::lemma_div_nonincreasing(-a, b);
    }
}

/// A rectangle in screen coordinates, edge form: the monitor work area and
/// window rectangles arrive from the platform in this shape.
#[derive(Clone, Copy, Debug, PartialEq, Eq, Structural)]
pub struct Rect {
    pub left: i32,
    pub top: i32,
    pub right: i32,
    pub bottom: i32,
}

/// Horizontal center of a rectangle, truncating toward zero.
pub open spec fn spec_center_x(r: Rect) -> int {
    div_trunc(r.left + r.right, 2)
}

/// Vertical center of a rectangle, truncating toward zero.
pub open spec fn spec_center_y(r: Rect) -> int {
    div_trunc(r.top + r.bottom, 2)
}

impl Rect {
    /// Build a rectangle from its four edges.
    pub fn new(left: i32, top: i32, right: i32, bottom: i32) -> (r: Self)
        ensures
            r == (Rect { left, top, right, bottom }),
    {
        Rect { left, top, right, bottom }
    }

    /// The rectangle's center point.
    pub fn center(&self) -> (c: XY)
        ensures
            c.x == spec_center_x(*self),
            c.y == spec_center_y(*self),
    {
        let cx: i64 = (self.left as i64 + self.right as i64) / 2;
        let cy: i64 = (self.top as i64 + self.bottom as i64) / 2;
        XY { x: cx as i32, y: cy as i32 }
    }

    /// Width and height of the rectangle.
    pub fn size(&self) -> (s: XY)
        requires
            i32::MIN <= self.right - self.left <= i32::MAX,
            i32::MIN <= self.bottom - self.top <= i32::MAX,
        ensures
            s.x == self.right - self.left,
            s.y == self.bottom - self.top,
    {
        XY { x: self.right - self.left, y: self.bottom - self.top }
    }

    /// Top-left corner of the rectangle.
    pub fn origin(&self) -> (o: XY)
        ensures
            o.x == self.left,
            o.y == self.top,
    {
        XY { x: self.left, y: self.top }
    }
}

/// The origin that centers a box of size `size` on the point `center`:
/// `center - size / 2`, componentwise, with truncating division.
pub open spec fn spec_centered_origin(center: XY, size: XY) -> (int, int) {
    (center.x - div_trunc(size.x as int, 2), center.y - div_trunc(size.y as int, 2))
}

/// Place a box of the given size so that its center lands on `center`.
/// The origin is exactly `(cx - w/2, cy - h/2)` with truncating division.
pub fn centered_origin(center: XY, size: XY) -> (o: XY)
    requires
        i32::MIN <= center.x - div_trunc(size.x as int, 2) <= i32::MAX,
        i32::MIN <= center.y - div_trunc(size.y as int, 2) <= i32::MAX,
    ensures
        (o.x as int, o.y as int) == spec_centered_origin(center, size),
{
    proof {
        lemma_div_trunc_in_range(size.x as int, 2);
        lemma_div_trunc_in_range(size.y as int, 2);
    }
    let half_w: i32 = size.x / 2;
    let half_h: i32 = size.y / 2;
    XY { x: center.x - half_w, y: center.y - half_h }
}

} // verus!
