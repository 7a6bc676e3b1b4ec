//! Actuation state machine: per-key press/release decisions with
//! directional hysteresis ("rapid trigger") against the calibrated baseline.

use vstd::prelude::*;

use crate::keystate::KeyState;
use crate::keystate::key_wf;

verus! {

/// A released key engages once its reading climbs a full actuation
/// threshold above its rest baseline.
pub open spec fn press_fires(k: KeyState, actuation_threshold: u16) -> bool {
    k.raw >= k.baseline + actuation_threshold
}

/// A pressed key releases once its reading has receded a full rapid-trigger
/// threshold from the deepest point reached (`peak`), or has come back up
/// past the original actuation point.
pub open spec fn release_fires(k: KeyState, peak: int, actuation_threshold: u16, rapid_trigger_threshold: u16) -> bool {
    k.raw + rapid_trigger_threshold <= peak || k.raw < k.baseline + actuation_threshold
}

/// One key after one actuation step.
///
/// Released: engage when the press condition fires, recording the reading
/// as the initial peak. Pressed: deepen the peak to the current reading if
/// it exceeds it, then release (resetting the peak to the baseline) when
/// the release condition fires against that updated peak.
pub open spec fn actuate_key_spec(k: KeyState, actuation_threshold: u16, rapid_trigger_threshold: u16) -> KeyState {
    if !k.actuated {
        if press_fires(k, actuation_threshold) {
            KeyState { actuated: true, peak: k.raw, ..k }
        } else {
            k
        }
    } else {
        let deepened: int = if k.raw > k.peak { k.raw as int } else { k.peak as int };
        if release_fires(k, deepened, actuation_threshold, rapid_trigger_threshold) {
            KeyState { actuated: false, peak: k.baseline, ..k }
        } else {
            KeyState { peak: deepened as u16, ..k }
        }
    }
}

/// The whole table after one actuation step per key.
pub open spec fn actuate_table_spec(s: Seq<KeyState>, actuation_threshold: u16, rapid_trigger_threshold: u16) -> Seq<KeyState> {
    Seq::new(s.len(), |i: int| actuate_key_spec(s[i], actuation_threshold, rapid_trigger_threshold))
}

/// After an actuation step a pressed key's peak bounds both its baseline
/// and its current reading; a released key carries its baseline as peak
/// whenever it just released. This is what lets a recalibration pass that
/// follows in the same tick preserve the key invariant.
pub open spec fn actuated_key_bounds(k: KeyState) -> bool {
    k.actuated ==> k.baseline <= k.peak && k.raw <= k.peak
}

/// One actuation step for one key. The step is the sole writer of
/// `actuated` and `peak`; `raw`, `previous` and `baseline` pass through
/// untouched (stated by the exact equation with the step function).
pub fn actuate_key(k: &mut KeyState, actuation_threshold: u16, rapid_trigger_threshold: u16)
    ensures
        *final(k) == actuate_key_spec(*old(k), actuation_threshold, rapid_trigger_threshold),
        actuated_key_bounds(*final(k)),
        key_wf(*final(k)),
{
    if !k.actuated {
        if (k.raw as u32) >= (k.baseline as u32) + (actuation_threshold as u32) {
            k.peak = k.raw;
            k.actuated = true;
        }
    } else {
        if k.raw > k.peak {
            k.peak = k.raw;
        }
        if (k.raw as u32) + (rapid_trigger_threshold as u32) <= (k.peak as u32)
            || (k.raw as u32) < (k.baseline as u32) + (actuation_threshold as u32)
        {
            k.actuated = false;
            k.peak = k.baseline;
        }
    }
}

/// One actuation step over the whole table.
pub fn actuate(keys: &mut Vec<KeyState>, actuation_threshold: u16, rapid_trigger_threshold: u16)
    ensures
        final(keys)@ == actuate_table_spec(old(keys)@, actuation_threshold, rapid_trigger_threshold),
        forall|i: int|
            0 <= i < final(keys)@.len() ==> actuated_key_bounds(#[trigger] final(keys)@[i]),
        forall|i: int| 0 <= i < final(keys)@.len() ==> key_wf(#[trigger] final(keys)@[i]),
{
    let n: usize = keys.len();
    let mut i: usize = 0;
    while i < n
        invariant
            i <= n,
            keys@.len() == n,
            forall|j: int|
                0 <= j < i as int ==> #[trigger] keys@[j]
                    == actuate_key_spec(old(keys)@[j], actuation_threshold, rapid_trigger_threshold),
            forall|j: int| 0 <= j < i as int ==> actuated_key_bounds(#[trigger] keys@[j]),
            forall|j: int| 0 <= j < i as int ==> key_wf(#[trigger] keys@[j]),
            forall|j: int| i as int <= j < n as int ==> #[trigger] keys@[j] == old(keys)@[j],
        decreases n - i,
    {
        let mut k: KeyState = keys[i];
        actuate_key(&mut k, actuation_threshold, rapid_trigger_threshold);
        keys[i] = k;
        i = i + 1;
    }
    assert(keys@ =~= actuate_table_spec(old(keys)@, actuation_threshold, rapid_trigger_threshold));
}

} // verus!
