//! Window-peek orchestration core: raw-keyboard event translation, hotkey
//! filters, a display-mode state machine, window-geometry arithmetic, the
//! projector/ruler compositing geometry, and the configuration snapshot with
//! its text codec.

pub mod cells;
pub mod codec;
pub mod config;
pub mod geometry;
pub mod keys;
pub mod manager;
pub mod parse;
pub mod projector;
pub mod settings;
pub mod watcher;
