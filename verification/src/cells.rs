//! Shared, atomically swappable cells.
//!
//! The configuration snapshot, the current target handle, and the published
//! display mode are each shared between threads through a lock-free
//! swappable cell: many concurrent readers, one designated writer, and no
//! reader ever blocks a writer or vice versa. A read observes the most
//! recently published value but carries no staleness bound, so every
//! consumer re-reads on use instead of caching; nothing can therefore be
//! assumed about the value a load returns, and the verified logic always
//! takes the loaded snapshot onward as an explicit argument.

use vstd::prelude::*;

use crate::config::{Config, Hotkey};
use crate::watcher::WindowId;

verus! {

/// The shared configuration cell. The settings UI is its single writer; the
/// state machine and the ruler read it.
#[verifier::external_body]
pub struct ConfigCell {
    cell: arc_swap::ArcSwap<Config>,
}

impl ConfigCell {
    /// Relies on arc_swap::ArcSwap::from_pointee to build a cell holding the
    /// given initial snapshot.
    #[verifier::external_body]
    pub fn new(initial: Config) -> (r: Self) {
        ConfigCell { cell: arc_swap::ArcSwap::from_pointee(initial) }
    }

    /// Relies on arc_swap::ArcSwapAny::load_full: returns the most recently
    /// stored snapshot. Concurrent writers make the value nondeterministic,
    /// so nothing more can be promised of it.
    #[verifier::external_body]
    pub fn load(&self) -> (r: Config) {
        *self.cell.load_full()
    }

    /// Relies on arc_swap::ArcSwapAny::store to publish a new snapshot.
    #[verifier::external_body]
    pub fn store(&self, value: Config) {
        self.cell.store(std::sync::Arc::new(value));
    }
}

/// The shared current-target cell. The watcher is its single writer; it is
/// never cleared, so readers may observe a handle whose window has closed
/// and must tolerate it.
#[verifier::external_body]
pub struct TargetCell {
    cell: arc_swap::ArcSwapOption<WindowId>,
}

impl TargetCell {
    /// Relies on arc_swap::ArcSwapOption::empty to build a cell holding no
    /// target yet.
    #[verifier::external_body]
    pub fn new() -> (r: Self) {
        TargetCell { cell: arc_swap::ArcSwapOption::empty() }
    }

    /// Relies on arc_swap::ArcSwapAny::load_full: returns the most recently
    /// published handle, or nothing if none was ever published. Concurrent
    /// writers make the value nondeterministic.
    #[verifier::external_body]
    pub fn load(&self) -> (r: Option<WindowId>) {
        self.cell.load_full().map(|arc| *arc)
    }

    /// Relies on arc_swap::ArcSwapAny::store to publish the latest matched
    /// window handle, replacing any prior one.
    #[verifier::external_body]
    pub fn store(&self, id: WindowId) {
        self.cell.store(Some(std::sync::Arc::new(id)));
    }
}

/// The shared published-mode cell. The state machine is its single writer;
/// the projector reads it on every show and paint message.
#[verifier::external_body]
pub struct ModeCell {
    cell: arc_swap::ArcSwap<Option<Hotkey>>,
}

impl ModeCell {
    /// Relies on arc_swap::ArcSwap::from_pointee to build a cell holding no
    /// mode (the initial state).
    #[verifier::external_body]
    pub fn new() -> (r: Self) {
        ModeCell { cell: arc_swap::ArcSwap::from_pointee(None) }
    }

    /// Relies on arc_swap::ArcSwapAny::load_full: returns the most recently
    /// published mode. Concurrent writers make the value nondeterministic.
    #[verifier::external_body]
    pub fn load(&self) -> (r: Option<Hotkey>) {
        *self.cell.load_full()
    }

    /// Relies on arc_swap::ArcSwapAny::store to publish the new mode.
    #[verifier::external_body]
    pub fn store(&self, mode: Option<Hotkey>) {
        self.cell.store(std::sync::Arc::new(mode));
    }
}

} // verus!
