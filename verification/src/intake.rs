//! Sample intake: polarity correction and the noise-floor gate applied to
//! one tick's worth of raw millivolt readings.

use vstd::prelude::*;

use crate::keystate::KeyState;

verus! {

/// Upper end of the reading range in millivolts; an inverted-polarity board
/// reports depth as `FULL_SCALE_MV - reading`.
pub const FULL_SCALE_MV: u16 = 5000;

/// Raw analog conversions arrive in quarter-millivolt units; depth readings
/// are the converted value scaled down by four.
pub fn scale_reading(quarter_mv: u16) -> (mv: u16)
    ensures
        mv == quarter_mv as int / 4,
{
    quarter_mv / 4
}

/// Depth in millivolts after the board-level polarity flag is applied.
/// Negative only for an out-of-range reading on an inverted board, which
/// every noise floor then gates out.
pub open spec fn corrected_reading(north_down: bool, mv: u16) -> int {
    if north_down {
        mv as int
    } else {
        FULL_SCALE_MV - mv
    }
}

/// One key after intake: gated readings leave the key untouched, others
/// shift `raw` into `previous` and store the corrected depth.
pub open spec fn intake_key_spec(k: KeyState, mv: u16, north_down: bool, noise_floor: u16) -> KeyState {
    let c = corrected_reading(north_down, mv);
    if c < noise_floor {
        k
    } else {
        KeyState { raw: c as u16, previous: k.raw, ..k }
    }
}

/// The whole table after intake of one reading per key.
pub open spec fn intake_table_spec(
    s: Seq<KeyState>,
    readings: Seq<u16>,
    north_down: bool,
    noise_floor: u16,
) -> Seq<KeyState> {
    Seq::new(s.len(), |i: int| intake_key_spec(s[i], readings[i], north_down, noise_floor))
}

/// Apply intake to one key.
pub fn intake_key(k: &mut KeyState, mv: u16, north_down: bool, noise_floor: u16)
    ensures
        *final(k) == intake_key_spec(*old(k), mv, north_down, noise_floor),
        corrected_reading(north_down, mv) < noise_floor ==> *final(k) == *old(k),
{
    if north_down {
        if mv >= noise_floor {
            k.previous = k.raw;
            k.raw = mv;
        }
    } else {
        if mv <= FULL_SCALE_MV && FULL_SCALE_MV - mv >= noise_floor {
            k.previous = k.raw;
            k.raw = FULL_SCALE_MV - mv;
        }
    }
}

/// Apply intake to the whole table. A key whose corrected reading falls
/// below the noise floor is left bit-for-bit unchanged; every other key has
/// `raw` shifted into `previous` and the corrected depth stored, with
/// `baseline`, `peak` and `actuated` untouched.
pub fn intake(keys: &mut Vec<KeyState>, readings: &Vec<u16>, north_down: bool, noise_floor: u16)
    requires
        old(keys)@.len() == readings@.len(),
    ensures
        final(keys)@ == intake_table_spec(old(keys)@, readings@, north_down, noise_floor),
        forall|i: int|
            0 <= i < old(keys)@.len()
                && corrected_reading(north_down, readings@[i]) < noise_floor
                ==> #[trigger] final(keys)@[i] == old(keys)@[i],
{
    let n: usize = keys.len();
    let mut i: usize = 0;
    while i < n
        invariant
            i <= n,
            keys@.len() == n,
            readings@.len() == n,
            forall|j: int|
                0 <= j < i as int ==> #[trigger] keys@[j]
                    == intake_key_spec(old(keys)@[j], readings@[j], north_down, noise_floor),
            forall|j: int| i as int <= j < n as int ==> #[trigger] keys@[j] == old(keys)@[j],
        decreases n - i,
    {
        let mut k: KeyState = keys[i];
        intake_key(&mut k, readings[i], north_down, noise_floor);
        keys[i] = k;
        i = i + 1;
    }
    assert(keys@ =~= intake_table_spec(old(keys)@, readings@, north_down, noise_floor));
}

} // verus!
