//! Target-window watcher logic: recognising the tracked application's window
//! by its title prefix, stripping its chrome styles, and placing it over the
//! monitor work area.
//!
//! The platform side (enumerating windows, the shell-hook subscription,
//! reading titles and styles, applying positions) lives outside the library;
//! it hands in plain values and applies what comes back.

use vstd::prelude::*;

use crate::cells::TargetCell;
use crate::geometry::{Rect, XY};

verus! {

/// An opaque handle to a native window, carried as a plain value. The
/// platform guarantees its handle table is safe to share across threads, so
/// the raw value may travel freely; a stale handle is tolerated (operations
/// on it simply fail outside the library).
#[derive(Clone, Copy, Debug, PartialEq, Eq, Structural)]
pub struct WindowId(pub usize);

/// The title prefix that identifies the tracked application's windows, as
/// UTF-16 code units.
pub open spec fn spec_title_prefix() -> Seq<u16> {
    seq![
        0x4Du16,
        0x69u16,
        0x6Eu16,
        0x65u16,
        0x63u16,
        0x72u16,
        0x61u16,
        0x66u16,
        0x74u16,
        0x2Au16,
    ]
}

/// A window matches iff its title begins with the fixed prefix
/// (case-sensitive, exact match on the first ten code units).
pub open spec fn spec_title_matches(title: Seq<u16>) -> bool {
    &&& title.len() >= 10
    &&& (forall|i: int| 0 <= i < 10 ==> title[i] == spec_title_prefix()[i])
}

/// Test a window title, given as UTF-16 code units, against the fixed prefix.
pub fn title_matches(title: &[u16]) -> (r: bool)
    ensures
        r == spec_title_matches(title@),
{
    let prefix: [u16; 10] = [
        0x4Du16,
        0x69u16,
        0x6Eu16,
        0x65u16,
        0x63u16,
        0x72u16,
        0x61u16,
        0x66u16,
        0x74u16,
        0x2Au16,
    ];
    proof {
        assert(prefix@ =~= spec_title_prefix());
    }
    if title.len() < 10 {
        return false;
    }
    let mut i: usize = 0;
    while i < 10
        invariant
            0 <= i <= 10,
            title@.len() >= 10,
            prefix@ =~= spec_title_prefix(),
            forall|j: int| 0 <= j < i ==> title@[j] == spec_title_prefix()[j],
        decreases 10 - i,
    {
        if title[i] != prefix[i] {
            assert(title@[i as int] != spec_title_prefix()[i as int]);
            return false;
        }
        i = i + 1;
    }
    true
}

/// Border style bit.
pub const WS_BORDER: u32 = 0x0080_0000;

/// Dialog-frame style bit.
pub const WS_DLGFRAME: u32 = 0x0040_0000;

/// Sizing-border style bit.
pub const WS_THICKFRAME: u32 = 0x0004_0000;

/// Minimize-box style bit.
pub const WS_MINIMIZEBOX: u32 = 0x0002_0000;

/// Maximize-box style bit.
pub const WS_MAXIMIZEBOX: u32 = 0x0001_0000;

/// System-menu style bit.
pub const WS_SYSMENU: u32 = 0x0008_0000;

/// All the chrome/decoration style bits that are stripped from a matched
/// window.
pub const CHROME_MASK: u32 = WS_BORDER | WS_DLGFRAME | WS_THICKFRAME | WS_MINIMIZEBOX
    | WS_MAXIMIZEBOX | WS_SYSMENU;

/// Clear every chrome style bit, leaving the rest of the style word as it
/// was.
pub fn strip_chrome(style: u32) -> (r: u32)
    ensures
        r == style & !CHROME_MASK,
        r & CHROME_MASK == 0,
{
    proof {
        assert(0x0080_0000u32 | 0x0040_0000u32 | 0x0004_0000u32 | 0x0002_0000u32 | 0x0001_0000u32
            | 0x0008_0000u32 == 0x00CF_0000u32) by (bit_vector);
        assert(CHROME_MASK == 0x00CF_0000u32);
        assert((style & !0x00CF_0000u32) & 0x00CF_0000u32 == 0u32) by (bit_vector);
    }
    style & !CHROME_MASK
}

/// Stripping is idempotent: reapplying it to an already stripped style word
/// changes nothing.
pub proof fn lemma_strip_idempotent(style: u32)
    ensures
        (style & !CHROME_MASK) & !CHROME_MASK == style & !CHROME_MASK,
{
    assert((style & !0x00CF_0000u32) & !0x00CF_0000u32 == style & !0x00CF_0000u32) by (bit_vector);
    assert(0x0080_0000u32 | 0x0040_0000u32 | 0x0004_0000u32 | 0x0002_0000u32 | 0x0001_0000u32
        | 0x0008_0000u32 == 0x00CF_0000u32) by (bit_vector);
    assert(CHROME_MASK == 0x00CF_0000u32);
}

/// What the watcher does with a freshly created (or re-detected) window:
/// if the title matches the prefix, the window's chrome styles are stripped,
/// it is placed to exactly fill the monitor work area, and its handle is
/// published as the current target, replacing any prior one. A window whose
/// title does not match is ignored.
pub fn accept_window(
    cell: &TargetCell,
    id: WindowId,
    title: &[u16],
    style: u32,
    work: Rect,
) -> (r: Option<(u32, XY, XY)>)
    requires
        i32::MIN <= work.right - work.left <= i32::MAX,
        i32::MIN <= work.bottom - work.top <= i32::MAX,
    ensures
        r is Some <==> spec_title_matches(title@),
        r is Some ==> {
            let (new_style, origin, size) = r->Some_0;
            &&& new_style == style & !CHROME_MASK
            &&& origin == (XY { x: work.left, y: work.top })
            &&& size.x == work.right - work.left
            &&& size.y == work.bottom - work.top
        },
{
    if title_matches(title) {
        let new_style = strip_chrome(style);
        let origin = work.origin();
        let size = work.size();
        cell.store(id);
        Some((new_style, origin, size))
    } else {
        None
    }
}

} // verus!
