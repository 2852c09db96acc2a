//! Settings logic: how the UI's edits become new configuration snapshots.
//!
//! Each edit loads the current snapshot, changes one field, and publishes
//! the whole new snapshot through the shared cell; malformed input is
//! rejected and the published snapshot stays untouched. Every function
//! returns the (loaded, published) snapshot pair so callers can display
//! both.

use vstd::prelude::*;

use crate::cells::ConfigCell;
use crate::config::{Color, Config, Hotkey, Resolution, spec_hotkey_of, spec_resolution_of};
use crate::keys::{KeyEvent, KeyFilter};
use crate::parse::{ParseResolutionError, spec_parse_hex_color, spec_parse_xy};

verus! {

/// Hotkey capture: bind the captured key event, with its exact modifier
/// snapshot, to the mode being rebound, and publish.
pub fn rebind_hotkey(cell: &ConfigCell, mode: Hotkey, ev: KeyEvent) -> (r: (Config, Config))
    ensures
        spec_hotkey_of(r.1, mode) == Some(
            KeyFilter { char: ev.char, modifiers: Some(ev.modifiers) },
        ),
        forall|h: Hotkey| h != mode ==> spec_hotkey_of(r.1, h) == spec_hotkey_of(r.0, h),
        r.1.thin == r.0.thin && r.1.tall == r.0.tall && r.1.wide == r.0.wide,
        r.1.ruler == r.0.ruler,
        r.1.colors == r.0.colors,
{
    let loaded = cell.load();
    let updated = loaded.set_hotkey(
        mode,
        Some(KeyFilter { char: ev.char, modifiers: Some(ev.modifiers) }),
    );
    cell.store(updated);
    (loaded, updated)
}

/// Resolution entry: parse a `<width>x<height>` string; on success publish
/// the new snapshot, on failure report the error and publish nothing.
pub fn rebind_resolution(cell: &ConfigCell, mode: Hotkey, text: &[u8]) -> (r: Result<
    (Config, Config),
    ParseResolutionError,
>)
    ensures
        r is Ok <==> spec_parse_xy(text@) is Ok,
        r is Err ==> r->Err_0 == spec_parse_xy(text@)->Err_0,
        r is Ok ==> {
            let xy = spec_parse_xy(text@)->Ok_0;
            let (loaded, published) = r->Ok_0;
            &&& spec_resolution_of(published, mode) == (Resolution {
                width: xy.x,
                height: xy.y,
            })
            &&& (forall|h: Hotkey| h != mode ==> spec_resolution_of(published, h)
                == spec_resolution_of(loaded, h))
            &&& published.ruler == loaded.ruler
            &&& published.thin_key == loaded.thin_key
            &&& published.tall_key == loaded.tall_key
            &&& published.wide_key == loaded.wide_key
            &&& published.colors == loaded.colors
        },
{
    let resolution = match Resolution::parse(text) {
        Ok(resolution) => resolution,
        Err(e) => {
            return Err(e);
        },
    };
    let loaded = cell.load();
    let updated = loaded.set_resolution(mode, resolution);
    cell.store(updated);
    Ok((loaded, updated))
}

/// Accent-color entry: parse a `#RRGGBB` string; on success publish the
/// new snapshot with that accent color replaced, on failure publish
/// nothing.
pub fn rebind_color(cell: &ConfigCell, index: usize, text: &[u8]) -> (r: Option<(Config, Config)>)
    requires
        index < 2,
    ensures
        r is Some <==> spec_parse_hex_color(text@) is Some,
        r is Some ==> {
            let color = spec_parse_hex_color(text@)->Some_0;
            let (loaded, published) = r->Some_0;
            &&& published.colors[index as int] == color
            &&& published.colors[1 - index] == loaded.colors[1 - index]
            &&& published.thin == loaded.thin
            &&& published.tall == loaded.tall
            &&& published.wide == loaded.wide
            &&& published.ruler == loaded.ruler
            &&& published.thin_key == loaded.thin_key
            &&& published.tall_key == loaded.tall_key
            &&& published.wide_key == loaded.wide_key
        },
{
    let color = match Color::parse_hex(text) {
        Some(color) => color,
        None => {
            return None;
        },
    };
    let loaded = cell.load();
    let mut updated = loaded;
    updated.colors = if index == 0 {
        [color, loaded.colors[1]]
    } else {
        [loaded.colors[0], color]
    };
    cell.store(updated);
    Some((loaded, updated))
}

} // verus!
