//! Per-key state and the table invariant shared by the whole pipeline.

use vstd::prelude::*;

verus! {

/// Number of physical switches: five multiplexed ADC lines of sixteen
/// channels each.
pub const NUM_KEYS: usize = 80;

/// All state the pipeline keeps for one key, in millivolts of
/// polarity-corrected depth (0 = fully released, higher = more depressed).
#[derive(Clone, Copy, PartialEq, Eq, Structural, Debug)]
pub struct KeyState {
    /// Depth reading of the current tick.
    pub raw: u16,
    /// Depth reading of the prior tick.
    pub previous: u16,
    /// Calibrated rest-position reading; raised only by recalibration.
    pub baseline: u16,
    /// Deepest reading observed since the key last became pressed; holds
    /// `baseline` (and is meaningless) while the key is released.
    pub peak: u16,
    /// Press state after hysteresis.
    pub actuated: bool,
}

/// Invariant every pipeline stage preserves: while a key is pressed its
/// recorded peak is at least as deep as its rest baseline.
pub open spec fn key_wf(k: KeyState) -> bool {
    k.actuated ==> k.baseline <= k.peak
}

/// Invariant of the whole key table: one well-formed entry per switch.
pub open spec fn table_wf(s: Seq<KeyState>) -> bool {
    &&& s.len() == NUM_KEYS
    &&& forall|i: int| 0 <= i < s.len() ==> key_wf(#[trigger] s[i])
}

impl KeyState {
    /// A key at power-on: released, with every reading at zero.
    pub fn at_rest() -> (k: KeyState)
        ensures
            k == (KeyState { raw: 0, previous: 0, baseline: 0, peak: 0, actuated: false }),
            key_wf(k),
    {
        KeyState { raw: 0, previous: 0, baseline: 0, peak: 0, actuated: false }
    }
}

/// The full table at power-on: `NUM_KEYS` keys at rest.
pub fn fresh_table() -> (t: Vec<KeyState>)
    ensures
        table_wf(t@),
        forall|i: int| 0 <= i < t@.len() ==> #[trigger] t@[i] == KeyState::at_rest_spec(),
{
    let mut t: Vec<KeyState> = Vec::new();
    let mut i: usize = 0;
    while i < NUM_KEYS
        invariant
            i <= NUM_KEYS,
            t@.len() == i,
            forall|j: int| 0 <= j < i as int ==> #[trigger] t@[j] == KeyState::at_rest_spec(),
        decreases NUM_KEYS - i,
    {
        t.push(KeyState::at_rest());
        i = i + 1;
    }
    t
}

impl KeyState {
    /// The power-on value of a key, for use in contracts.
    pub open spec fn at_rest_spec() -> KeyState {
        KeyState { raw: 0, previous: 0, baseline: 0, peak: 0, actuated: false }
    }
}

} // verus!
