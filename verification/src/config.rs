//! Compiled-in board configuration: polarity, thresholds, noise floor,
//! recalibration cadence, USB identity, and the static activation-rule and
//! snap-pair tables.

use vstd::prelude::*;

use crate::keystate::NUM_KEYS;

verus! {

/// Voltage rises with depression on this board, so readings pass through
/// without polarity inversion.
pub const NORTH_DOWN: bool = true;

/// A released key engages once its reading is this far above its baseline
/// (millivolts).
pub const ACTUATION_THRESHOLD: u16 = 10;

/// A pressed key releases once its reading has receded this far from its
/// peak (millivolts).
pub const RAPID_TRIGGER_THRESHOLD: u16 = 5;

/// Enable the SOCD snap policy: a conflicting pair reads as neutral.
pub const SNAP_IGNORE_MASK: bool = true;

/// Corrected readings below this many millivolts are treated as electrical
/// noise and leave the key untouched.
pub const IGNORE_BELOW_MV: u16 = 60;

/// Seconds between baseline recalibration passes.
pub const RECALIBRATION_SEC: usize = 10;

/// Scheduler ticks per second used to convert the recalibration cadence.
pub const TICKS_PER_SECOND: usize = 1000;

/// Generic USB keyboard vendor ID.
pub const USB_VID: u16 = 0x16c0;

/// Generic USB keyboard product ID.
pub const USB_PID: u16 = 0x27db;

/// Convert a cadence in seconds to scheduler ticks.
pub fn ticks_of_seconds(seconds: usize, ticks_per_second: usize) -> (t: usize)
    requires
        seconds * ticks_per_second <= usize::MAX,
    ensures
        t == seconds * ticks_per_second,
{
    seconds * ticks_per_second
}

/// The board's activation rules: each entry `(key, layer)` makes `layer`
/// active while `key` is held; layer 0 is the default.
pub fn default_layer_rules() -> (r: Vec<(usize, usize)>)
    ensures
        r@.len() == 3,
        r@[0] == (19usize, 1usize),
        r@[1] == (66usize, 2usize),
        r@[2] == (67usize, 3usize),
        forall|j: int| 0 <= j < r@.len() ==> (#[trigger] r@[j]).0 < NUM_KEYS,
{
    let mut r: Vec<(usize, usize)> = Vec::new();
    r.push((19, 1));
    r.push((66, 2));
    r.push((67, 3));
    r
}

/// The board's opposing-direction pairs: W/S, A/D, Up/Down, Left/Right.
pub fn default_snap_pairs() -> (r: Vec<(usize, usize)>)
    ensures
        r@.len() == 4,
        r@[0] == (22usize, 15usize),
        r@[1] == (1usize, 14usize),
        r@[2] == (11usize, 10usize),
        r@[3] == (5usize, 12usize),
        forall|j: int| 0 <= j < r@.len() ==> (#[trigger] r@[j]).0 < NUM_KEYS && r@[j].1 < NUM_KEYS,
{
    let mut r: Vec<(usize, usize)> = Vec::new();
    r.push((22, 15));
    r.push((1, 14));
    r.push((11, 10));
    r.push((5, 12));
    r
}

} // verus!
