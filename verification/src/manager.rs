//! The orchestration state machine.
//!
//! It owns the current display mode, tests each incoming key event against
//! the configured hotkey filters — only while the target window is the OS
//! foreground window — and on a match toggles the mode, deriving the target
//! window's new rectangle, the projector's visibility, and the pointer-speed
//! override from the new mode.

use vstd::prelude::*;

use crate::cells::{ConfigCell, ModeCell, TargetCell};
use crate::config::{Config, Hotkey, spec_resolution_of};
use crate::geometry::{Rect, XY, centered_origin, div_trunc, spec_center_x, spec_center_y};
use crate::keys::{KeyEvent, filter_matches};
use crate::watcher::WindowId;

verus! {

/// Which mode an event selects: the filters are tested in the fixed
/// priority order Tall, Thin, Wide, and the first match wins.
pub open spec fn spec_match_hotkey(c: Config, ev: KeyEvent) -> Option<Hotkey> {
    if c.tall_key is Some && filter_matches(c.tall_key->Some_0, ev) {
        Some(Hotkey::Tall)
    } else if c.thin_key is Some && filter_matches(c.thin_key->Some_0, ev) {
        Some(Hotkey::Thin)
    } else if c.wide_key is Some && filter_matches(c.wide_key->Some_0, ev) {
        Some(Hotkey::Wide)
    } else {
        None
    }
}

/// Test a key event against the three configured filters, in priority
/// order.
pub fn match_hotkey(config: &Config, ev: KeyEvent) -> (r: Option<Hotkey>)
    ensures
        r == spec_match_hotkey(*config, ev),
{
    if let Some(f) = config.tall_key {
        if f.test(ev) {
            return Some(Hotkey::Tall);
        }
    }
    if let Some(f) = config.thin_key {
        if f.test(ev) {
            return Some(Hotkey::Thin);
        }
    }
    if let Some(f) = config.wide_key {
        if f.test(ev) {
            return Some(Hotkey::Wide);
        }
    }
    None
}

/// Law: the tall filter is tested first, so whenever it matches — even if
/// another filter matches the same event — tall mode is selected.
pub proof fn lemma_tall_wins(c: Config, ev: KeyEvent)
    requires
        c.tall_key is Some,
        filter_matches(c.tall_key->Some_0, ev),
    ensures
        spec_match_hotkey(c, ev) == Some(Hotkey::Tall),
{
}

/// Law: the thin filter is tested before the wide one, so when the tall
/// filter does not match but the thin one does, thin mode is selected.
pub proof fn lemma_thin_before_wide(c: Config, ev: KeyEvent)
    requires
        c.tall_key is Some ==> !filter_matches(c.tall_key->Some_0, ev),
        c.thin_key is Some,
        filter_matches(c.thin_key->Some_0, ev),
    ensures
        spec_match_hotkey(c, ev) == Some(Hotkey::Thin),
{
}

/// The toggle rule: re-selecting the current mode reverts to no mode;
/// selecting any other mode switches to it.
pub open spec fn spec_toggle(current: Option<Hotkey>, matched: Hotkey) -> Option<Hotkey> {
    if current == Some(matched) {
        None
    } else {
        Some(matched)
    }
}

/// The pointer-speed override is active exactly while the mode is Tall.
pub open spec fn spec_mouse_slow(mode: Option<Hotkey>) -> bool {
    mode == Some(Hotkey::Tall)
}

/// The target window rectangle a mode calls for, as (origin, size) in
/// mathematical integers: no mode fills the work area; a mode's rectangle
/// is the configured size centered on the work-area center, the origin
/// computed with truncating division.
pub open spec fn spec_placement(c: Config, work: Rect, mode: Option<Hotkey>) -> (
    (int, int),
    (int, int),
) {
    match mode {
        None => (
            (work.left as int, work.top as int),
            (work.right - work.left, work.bottom - work.top),
        ),
        Some(m) => {
            let res = spec_resolution_of(c, m);
            (
                (
                    spec_center_x(work) - div_trunc(res.width as int, 2),
                    spec_center_y(work) - div_trunc(res.height as int, 2),
                ),
                (res.width as int, res.height as int),
            )
        },
    }
}

/// The work rectangle's extents fit in machine integers.
pub open spec fn spec_work_fits(work: Rect) -> bool {
    &&& i32::MIN <= work.right - work.left <= i32::MAX
    &&& i32::MIN <= work.bottom - work.top <= i32::MAX
}

/// A mode's centered origin fits in machine integers.
pub open spec fn spec_mode_fits(c: Config, work: Rect, m: Hotkey) -> bool {
    let res = spec_resolution_of(c, m);
    &&& i32::MIN <= spec_center_x(work) - div_trunc(res.width as int, 2) <= i32::MAX
    &&& i32::MIN <= spec_center_y(work) - div_trunc(res.height as int, 2) <= i32::MAX
}

/// Every placement the configuration can call for on this work rectangle
/// fits in machine integers.
pub open spec fn spec_fits(c: Config, work: Rect) -> bool {
    &&& spec_work_fits(work)
    &&& spec_mode_fits(c, work, Hotkey::Thin)
    &&& spec_mode_fits(c, work, Hotkey::Tall)
    &&& spec_mode_fits(c, work, Hotkey::Wide)
}

/// Everything a transition asks the platform to apply.
pub struct Update {
    /// The mode after the transition, also handed to the compositor.
    pub mode: Option<Hotkey>,
    /// New top-left corner of the target window.
    pub origin: XY,
    /// New size of the target window.
    pub size: XY,
    /// The projector overlay is shown iff a mode is active.
    pub projector_visible: bool,
    /// The pointer-speed override is active iff the mode is Tall.
    pub slow_mouse: bool,
}

/// An update is exactly what the new mode calls for under the given
/// snapshot and work rectangle.
pub open spec fn spec_update_ok(c: Config, work: Rect, mode: Option<Hotkey>, u: Update) -> bool {
    &&& u.mode == mode
    &&& ((u.origin.x as int, u.origin.y as int), (u.size.x as int, u.size.y as int))
        == spec_placement(c, work, mode)
    &&& u.projector_visible == (mode is Some)
    &&& u.slow_mouse == spec_mouse_slow(mode)
}

/// The state machine: the current mode, and whether the pointer-speed
/// override is currently applied.
pub struct Manager {
    /// Current display mode; `None` initially.
    pub state: Option<Hotkey>,
    /// Whether the global pointer-speed override is in force.
    pub mouse_slowed: bool,
}

impl Manager {
    /// The override is applied exactly while the mode is Tall, so it can
    /// never be left behind by a transition.
    pub open spec fn wf(self) -> bool {
        self.mouse_slowed == spec_mouse_slow(self.state)
    }

    /// A fresh state machine: no mode, no override.
    pub fn new() -> (r: Self)
        ensures
            r.state is None,
            !r.mouse_slowed,
            r.wf(),
    {
        Manager { state: None, mouse_slowed: false }
    }

    /// Set up the state machine with its shared cells, as process start
    /// does: the configuration cell holds the initial snapshot, no target
    /// has been found yet, and no mode is published.
    pub fn bootstrap(initial: Config) -> (r: (Manager, ConfigCell, TargetCell, ModeCell))
        ensures
            r.0.state is None,
            !r.0.mouse_slowed,
            r.0.wf(),
    {
        (Manager::new(), ConfigCell::new(initial), TargetCell::new(), ModeCell::new())
    }

    /// Apply a matched hotkey: toggle the mode and derive everything the
    /// transition changes — the target rectangle (centered for a new mode,
    /// the full work area on revert), the projector visibility, and the
    /// pointer-speed override.
    pub fn update_state(&mut self, config: &Config, work: Rect, matched: Hotkey) -> (u: Update)
        requires
            old(self).wf(),
            spec_fits(*config, work),
        ensures
            final(self).state == spec_toggle(old(self).state, matched),
            final(self).wf(),
            spec_update_ok(*config, work, final(self).state, u),
    {
        let same = match self.state {
            Some(current) => current == matched,
            None => false,
        };
        let new_state: Option<Hotkey> = if same {
            None
        } else {
            Some(matched)
        };
        self.state = new_state;

        let (origin, size) = match new_state {
            None => (work.origin(), work.size()),
            Some(m) => {
                let res = config.get_resolution(m);
                let size = XY::new(res.width, res.height);
                (centered_origin(work.center(), size), size)
            },
        };

        let slow = match new_state {
            Some(Hotkey::Tall) => true,
            _ => false,
        };
        self.mouse_slowed = slow;

        Update {
            mode: new_state,
            origin,
            size,
            projector_visible: !same,
            slow_mouse: slow,
        }
    }

    /// Tear the state machine down: whatever the mode was, the
    /// pointer-speed override is restored unconditionally.
    pub fn teardown(&mut self) -> (slow: bool)
        ensures
            !slow,
            !final(self).mouse_slowed,
            final(self).state == old(self).state,
    {
        self.mouse_slowed = false;
        false
    }
}

/// One step of the key-event loop: load the current configuration snapshot
/// and target handle from their shared cells and decide which mode, if any,
/// the event selects. `foreground` is the handle of the OS foreground
/// window at the time of the event; no mode is ever selected unless a
/// target exists and is that window.
pub fn select_mode(
    cfg: &ConfigCell,
    target: &TargetCell,
    ev: KeyEvent,
    foreground: Option<WindowId>,
) -> (r: (Config, Option<WindowId>, Option<Hotkey>))
    ensures
        r.2 == (if r.1 is Some && r.1 == foreground {
            spec_match_hotkey(r.0, ev)
        } else {
            None::<Hotkey>
        }),
        r.2 is Some ==> r.1 is Some && r.1 == foreground,
{
    let config = cfg.load();
    let t = target.load();
    let is_foreground = match (t, foreground) {
        (Some(a), Some(b)) => a == b,
        _ => false,
    };
    let matched = if is_foreground {
        match_hotkey(&config, ev)
    } else {
        None
    };
    (config, t, matched)
}

/// Law: pressing a mode's hotkey twice in a row (with the target
/// foregrounded both times, so both presses take effect) returns the mode
/// to `None` and the target to the full work rectangle.
pub proof fn lemma_toggle_twice(cur: Option<Hotkey>, m: Hotkey, c: Config, work: Rect)
    requires
        cur != Some(m),
    ensures
        spec_toggle(spec_toggle(cur, m), m) is None,
        spec_placement(c, work, spec_toggle(spec_toggle(cur, m), m)) == (
            (work.left as int, work.top as int),
            ((work.right - work.left) as int, (work.bottom - work.top) as int),
        ),
{
}

/// Law: after any transition the pointer-speed override is in force iff
/// the transition entered Tall, so leaving Tall — by toggling it off or by
/// switching to another mode — always restores the pointer speed.
pub proof fn lemma_override_tracks_tall(cur: Option<Hotkey>, m: Hotkey)
    ensures
        spec_mouse_slow(spec_toggle(cur, m)) <==> (m == Hotkey::Tall && cur != Some(Hotkey::Tall)),
{
}

} // verus!
