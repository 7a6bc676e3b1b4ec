//! Calibration: a per-key rest baseline, raised on a periodic schedule so
//! that manufacturing and thermal drift do not bias actuation.

use vstd::prelude::*;

use crate::keystate::KeyState;

verus! {

/// One key after a recalibration pass: the baseline advances to the current
/// reading only when the reading sits a full actuation threshold above it;
/// otherwise the key is untouched. The baseline therefore never moves back
/// down (a deliberate, compatibility-preserving policy).
pub open spec fn recalibrate_key_spec(k: KeyState, actuation_threshold: u16) -> KeyState {
    if k.raw >= k.baseline + actuation_threshold {
        KeyState { baseline: k.raw, ..k }
    } else {
        k
    }
}

/// The whole table after one recalibration pass.
pub open spec fn recalibrate_table_spec(s: Seq<KeyState>, actuation_threshold: u16) -> Seq<KeyState> {
    Seq::new(s.len(), |i: int| recalibrate_key_spec(s[i], actuation_threshold))
}

/// The table after `n` recalibration passes.
pub open spec fn recalibrate_iter_spec(s: Seq<KeyState>, actuation_threshold: u16, n: nat) -> Seq<KeyState>
    decreases n,
{
    if n == 0 {
        s
    } else {
        recalibrate_table_spec(recalibrate_iter_spec(s, actuation_threshold, (n - 1) as nat), actuation_threshold)
    }
}

/// One recalibration pass over the whole table. Baselines never decrease,
/// and a key whose reading does not satisfy the raise condition is left
/// unchanged; no other field is touched on any key.
pub fn recalibrate(keys: &mut Vec<KeyState>, actuation_threshold: u16)
    ensures
        final(keys)@ == recalibrate_table_spec(old(keys)@, actuation_threshold),
        forall|i: int|
            0 <= i < old(keys)@.len()
                ==> old(keys)@[i].baseline <= #[trigger] final(keys)@[i].baseline,
{
    let n: usize = keys.len();
    let mut i: usize = 0;
    while i < n
        invariant
            i <= n,
            keys@.len() == n,
            forall|j: int|
                0 <= j < i as int ==> #[trigger] keys@[j]
                    == recalibrate_key_spec(old(keys)@[j], actuation_threshold),
            forall|j: int| i as int <= j < n as int ==> #[trigger] keys@[j] == old(keys)@[j],
        decreases n - i,
    {
        let k: KeyState = keys[i];
        if (k.raw as u32) >= (k.baseline as u32) + (actuation_threshold as u32) {
            keys[i] = KeyState { baseline: k.raw, ..k };
        }
        i = i + 1;
    }
    assert(keys@ =~= recalibrate_table_spec(old(keys)@, actuation_threshold));
}

/// Across any number of recalibration passes a key's baseline is
/// non-decreasing: later passes never report a shallower rest position.
pub proof fn lemma_recalibration_monotonic(s: Seq<KeyState>, actuation_threshold: u16, n: nat, m: nat, i: int)
    requires
        n <= m,
        0 <= i < s.len(),
    ensures
        recalibrate_iter_spec(s, actuation_threshold, n)[i].baseline
            <= recalibrate_iter_spec(s, actuation_threshold, m)[i].baseline,
        recalibrate_iter_spec(s, actuation_threshold, m).len() == s.len(),
    decreases m,
{
    if m != 0 {
        if n == m {
            lemma_recalibration_monotonic(s, actuation_threshold, (n - 1) as nat, (m - 1) as nat, i);
        } else {
            lemma_recalibration_monotonic(s, actuation_threshold, n, (m - 1) as nat, i);
        }
    }
}

/// A key whose reading never satisfies the raise condition is bit-for-bit
/// unchanged by any number of recalibration passes.
pub proof fn lemma_recalibration_unchanged(s: Seq<KeyState>, actuation_threshold: u16, n: nat, i: int)
    requires
        0 <= i < s.len(),
        s[i].raw < s[i].baseline + actuation_threshold,
    ensures
        recalibrate_iter_spec(s, actuation_threshold, n).len() == s.len(),
        recalibrate_iter_spec(s, actuation_threshold, n)[i] == s[i],
    decreases n,
{
    if n != 0 {
        lemma_recalibration_unchanged(s, actuation_threshold, (n - 1) as nat, i);
    }
}

} // verus!
