//! The configuration snapshot: per-mode target resolutions, the ruler tick
//! count, the three hotkey filters, and the two accent colors.
//!
//! A snapshot is an immutable value; the settings UI publishes whole new
//! snapshots through a shared cell and every consumer re-reads on use.

use vstd::prelude::*;

use crate::keys::{KeyFilter, Modifiers};

verus! {

/// The three display modes a hotkey can select.
#[derive(Clone, Copy, Debug, PartialEq, Eq, Structural)]
pub enum Hotkey {
    Thin,
    Tall,
    Wide,
}

/// A mode's target window size in pixels.
#[derive(Clone, Copy, Debug, PartialEq, Eq, Structural)]
pub struct Resolution {
    pub height: i32,
    pub width: i32,
}

impl Resolution {
    /// Pair a width and a height.
    pub fn new(width: i32, height: i32) -> (r: Self)
        ensures
            r == (Resolution { width, height }),
    {
        Resolution { width, height }
    }
}

/// An accent color as an RGB byte triple.
#[derive(Clone, Copy, Debug, PartialEq, Eq, Structural)]
pub struct Color(pub u8, pub u8, pub u8);

/// The platform's packed color word: `0x00BBGGRR`.
pub open spec fn spec_colorref(c: Color) -> int {
    (c.2 as int) * 0x10000 + (c.1 as int) * 0x100 + (c.0 as int)
}

impl Color {
    /// Pack this color into the platform's `0x00BBGGRR` color word.
    pub fn colorref(self) -> (r: u32)
        ensures
            r == spec_colorref(self),
            r <= 0xFFFFFF,
    {
        let red: u32 = self.0 as u32;
        let green: u32 = self.1 as u32;
        let blue: u32 = self.2 as u32;
        proof {
            assert(blue << 16u32 | green << 8u32 | red == blue * 0x10000 + green * 0x100 + red
                && blue * 0x10000 + green * 0x100 + red <= 0xFFFFFF) by (bit_vector)
                requires
                    red < 256u32 && green < 256u32 && blue < 256u32,
            ;
        }
        blue << 16u32 | green << 8u32 | red
    }
}

/// A configuration snapshot.
#[derive(Clone, Copy, Debug, PartialEq, Eq)]
pub struct Config {
    pub thin: Resolution,
    pub tall: Resolution,
    pub wide: Resolution,
    pub ruler: i32,
    pub thin_key: Option<KeyFilter>,
    pub tall_key: Option<KeyFilter>,
    pub wide_key: Option<KeyFilter>,
    pub colors: [Color; 2],
}

/// The documented default snapshot: one base character with shift and ctrl
/// distinguishing the tall and wide modes.
pub open spec fn spec_default_config() -> Config {
    Config {
        thin: Resolution { width: 400, height: 1800 },
        tall: Resolution { width: 384, height: 16384 },
        wide: Resolution { width: 1920, height: 300 },
        ruler: 19,
        thin_key: Some(
            KeyFilter {
                char: 'h',
                modifiers: Some(Modifiers { shift: false, ctrl: false, alt: false }),
            },
        ),
        tall_key: Some(
            KeyFilter {
                char: 'h',
                modifiers: Some(Modifiers { shift: true, ctrl: false, alt: false }),
            },
        ),
        wide_key: Some(
            KeyFilter {
                char: 'h',
                modifiers: Some(Modifiers { shift: false, ctrl: true, alt: false }),
            },
        ),
        colors: [Color(91, 207, 250), Color(245, 171, 185)],
    }
}

impl Default for Config {
    /// The defaults used when the stored configuration lacks a field.
    fn default() -> (r: Self)
        ensures
            r == spec_default_config(),
    {
        Config {
            thin: Resolution { width: 400, height: 1800 },
            tall: Resolution { width: 384, height: 16384 },
            wide: Resolution { width: 1920, height: 300 },
            ruler: 19,
            thin_key: Some(
                KeyFilter {
                    char: 'h',
                    modifiers: Some(Modifiers { shift: false, ctrl: false, alt: false }),
                },
            ),
            tall_key: Some(
                KeyFilter {
                    char: 'h',
                    modifiers: Some(Modifiers { shift: true, ctrl: false, alt: false }),
                },
            ),
            wide_key: Some(
                KeyFilter {
                    char: 'h',
                    modifiers: Some(Modifiers { shift: false, ctrl: true, alt: false }),
                },
            ),
            colors: [Color(91, 207, 250), Color(245, 171, 185)],
        }
    }
}

/// A hotkey binding is well formed when its character is one the keyboard
/// listener can produce: a lowercase letter.
pub open spec fn spec_filter_wf(f: Option<KeyFilter>) -> bool {
    f is Some ==> 0x61 <= f->Some_0.char as int <= 0x7A
}

/// The filter a snapshot binds to a mode.
pub open spec fn spec_hotkey_of(c: Config, hotkey: Hotkey) -> Option<KeyFilter> {
    match hotkey {
        Hotkey::Thin => c.thin_key,
        Hotkey::Tall => c.tall_key,
        Hotkey::Wide => c.wide_key,
    }
}

/// The resolution a snapshot binds to a mode.
pub open spec fn spec_resolution_of(c: Config, hotkey: Hotkey) -> Resolution {
    match hotkey {
        Hotkey::Thin => c.thin,
        Hotkey::Tall => c.tall,
        Hotkey::Wide => c.wide,
    }
}

impl Config {
    /// A snapshot is well formed when each bound hotkey character is one
    /// the keyboard listener can produce.
    pub open spec fn wf(self) -> bool {
        &&& spec_filter_wf(self.thin_key)
        &&& spec_filter_wf(self.tall_key)
        &&& spec_filter_wf(self.wide_key)
    }

    /// Rebind one mode's hotkey, leaving everything else unchanged.
    pub fn set_hotkey(self, hotkey: Hotkey, key_filter: Option<KeyFilter>) -> (r: Self)
        ensures
            spec_hotkey_of(r, hotkey) == key_filter,
            forall|h: Hotkey| h != hotkey ==> spec_hotkey_of(r, h) == spec_hotkey_of(self, h),
            r.thin == self.thin,
            r.tall == self.tall,
            r.wide == self.wide,
            r.ruler == self.ruler,
            r.colors == self.colors,
    {
        let mut updated = self;
        match hotkey {
            Hotkey::Thin => {
                updated.thin_key = key_filter;
            },
            Hotkey::Tall => {
                updated.tall_key = key_filter;
            },
            Hotkey::Wide => {
                updated.wide_key = key_filter;
            },
        }
        updated
    }

    /// The hotkey filter bound to a mode.
    pub fn get_hotkey(&self, hotkey: Hotkey) -> (r: Option<KeyFilter>)
        ensures
            r == spec_hotkey_of(*self, hotkey),
    {
        match hotkey {
            Hotkey::Thin => self.thin_key,
            Hotkey::Tall => self.tall_key,
            Hotkey::Wide => self.wide_key,
        }
    }

    /// The resolution bound to a mode.
    pub fn get_resolution(&self, hotkey: Hotkey) -> (r: Resolution)
        ensures
            r == spec_resolution_of(*self, hotkey),
    {
        match hotkey {
            Hotkey::Thin => self.thin,
            Hotkey::Tall => self.tall,
            Hotkey::Wide => self.wide,
        }
    }

    /// Rebind one mode's resolution, leaving everything else unchanged.
    pub fn set_resolution(self, hotkey: Hotkey, resolution: Resolution) -> (r: Self)
        ensures
            spec_resolution_of(r, hotkey) == resolution,
            forall|h: Hotkey| h != hotkey ==> spec_resolution_of(r, h) == spec_resolution_of(
                self,
                h,
            ),
            r.thin_key == self.thin_key,
            r.tall_key == self.tall_key,
            r.wide_key == self.wide_key,
            r.ruler == self.ruler,
            r.colors == self.colors,
    {
        let mut updated = self;
        match hotkey {
            Hotkey::Thin => {
                updated.thin = resolution;
            },
            Hotkey::Tall => {
                updated.tall = resolution;
            },
            Hotkey::Wide => {
                updated.wide = resolution;
            },
        }
        updated
    }
}

} // verus!
