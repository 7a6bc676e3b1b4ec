//! Report assembler: maps resolved, layer-aware key states into the set of
//! HID usage codes asserted this tick. The report is a set — a code appears
//! at most once however many keys map to it — and assembly is a pure
//! function of the resolved flags, the keymap and the active layer; it
//! carries no state from tick to tick.

use vstd::prelude::*;

use crate::keystate::KeyState;
use crate::keystate::NUM_KEYS;
use crate::socd::pair_conflicts;
use crate::socd::resolved_table_spec;
use crate::socd::lemma_socd_neutral;

verus! {

/// HID usage code 0 is "no event"; the keymap uses it for unmapped keys.
pub const UNMAPPED: u8 = 0;

/// Per-layer mapping from flat key index to HID usage code. Layer 0 is the
/// always-present default; higher layers come from external configuration
/// and are only selected here.
pub struct Keymap {
    /// `layers[l][k]` is the usage code key `k` sends under layer `l`, or
    /// `UNMAPPED` for no code.
    pub layers: Vec<Vec<u8>>,
}

impl Keymap {
    /// A keymap is well-formed when the default layer exists and every
    /// layer covers the whole key table.
    pub open spec fn wf(self) -> bool {
        &&& self.layers@.len() >= 1
        &&& forall|l: int| 0 <= l < self.layers@.len() ==> (#[trigger] self.layers@[l])@.len() == NUM_KEYS
    }

    /// The usage code key `key` sends under layer `layer`, if any: `None`
    /// for an absent layer, an uncovered key, or an `UNMAPPED` entry.
    pub open spec fn code_at(self, layer: int, key: int) -> Option<u8> {
        if 0 <= layer < self.layers@.len() && 0 <= key < self.layers@[layer]@.len()
            && self.layers@[layer]@[key] != UNMAPPED {
            Some(self.layers@[layer]@[key])
        } else {
            None
        }
    }

    /// Look the mapping up.
    pub fn lookup(&self, layer: usize, key: usize) -> (r: Option<u8>)
        ensures
            r == self.code_at(layer as int, key as int),
    {
        if layer < self.layers.len() {
            let row: &Vec<u8> = &self.layers[layer];
            if key < row.len() {
                let code: u8 = row[key];
                if code != UNMAPPED {
                    return Some(code);
                }
            }
        }
        None
    }
}

/// No usage code occurs twice: the sequence represents a set.
pub open spec fn codes_distinct(s: Seq<u8>) -> bool {
    forall|i: int, j: int| 0 <= i < j < s.len() ==> s[i] != s[j]
}

/// The report for the first `resolved.len()` keys, in first-contribution
/// order: the usage code of every resolved-actuated, mapped key, except
/// that a code some earlier key already contributed is not repeated —
/// duplicates are impossible by construction.
pub open spec fn report_spec(resolved: Seq<bool>, km: Keymap, layer: int) -> Seq<u8>
    decreases resolved.len(),
{
    if resolved.len() == 0 {
        Seq::empty()
    } else {
        let rest = report_spec(resolved.drop_last(), km, layer);
        let i = resolved.len() - 1;
        if resolved[i] && km.code_at(layer, i) is Some && !rest.contains(km.code_at(layer, i)->Some_0) {
            rest.push(km.code_at(layer, i)->Some_0)
        } else {
            rest
        }
    }
}

/// Whether the report assembled so far already asserts `code`.
fn contains_code(v: &Vec<u8>, code: u8) -> (b: bool)
    ensures
        b == v@.contains(code),
{
    let n: usize = v.len();
    let mut k: usize = 0;
    while k < n
        invariant
            k <= n,
            v@.len() == n,
            forall|t: int| 0 <= t < k as int ==> v@[t] != code,
        decreases n - k,
    {
        if v[k] == code {
            assert(v@[k as int] == code);
            return true;
        }
        k = k + 1;
    }
    proof {
        if v@.contains(code) {
            let w = choose|w: int| 0 <= w < v@.len() && v@[w] == code;
        }
    }
    false
}

/// Assemble the report: the set of usage codes of the keys whose resolved
/// actuation is true and which the active layer maps. Each code appears at
/// most once, and a code is present exactly when some resolved-actuated
/// key maps to it.
pub fn assemble_report(resolved: &Vec<bool>, km: &Keymap, layer: usize) -> (r: Vec<u8>)
    ensures
        r@ == report_spec(resolved@, *km, layer as int),
        codes_distinct(r@),
        forall|code: u8|
            r@.contains(code)
                <==> exists|i: int| 0 <= i < resolved@.len() && #[trigger] resolved@[i]
                    && km.code_at(layer as int, i) == Some(code),
{
    let n: usize = resolved.len();
    let mut r: Vec<u8> = Vec::new();
    let mut i: usize = 0;
    while i < n
        invariant
            i <= n,
            resolved@.len() == n,
            r@ == report_spec(resolved@.take(i as int), *km, layer as int),
        decreases n - i,
    {
        let ghost taken = resolved@.take(i as int + 1);
        proof {
            assert(taken.drop_last() =~= resolved@.take(i as int));
            assert(taken[taken.len() - 1] == resolved@[i as int]);
        }
        if resolved[i] {
            match km.lookup(layer, i) {
                Some(code) => {
                    if !contains_code(&r, code) {
                        r.push(code);
                    }
                }
                None => {}
            }
        }
        i = i + 1;
    }
    proof {
        assert(resolved@.take(n as int) =~= resolved@);
        lemma_report_distinct(resolved@, *km, layer as int);
        assert forall|code: u8| #[trigger] report_spec(resolved@, *km, layer as int).contains(code)
            <==> exists|i2: int| 0 <= i2 < resolved@.len() && #[trigger] resolved@[i2]
                && km.code_at(layer as int, i2) == Some(code) by {
            lemma_report_contains(resolved@, *km, layer as int, code);
        }
    }
    r
}

/// A code is in the report exactly when some resolved-actuated key maps to
/// it under the active layer.
pub proof fn lemma_report_contains(resolved: Seq<bool>, km: Keymap, layer: int, code: u8)
    ensures
        report_spec(resolved, km, layer).contains(code)
            <==> exists|i: int| 0 <= i < resolved.len() && #[trigger] resolved[i]
                && km.code_at(layer, i) == Some(code),
    decreases resolved.len(),
{
    if resolved.len() == 0 {
    } else {
        let rest = resolved.drop_last();
        let last = resolved.len() - 1;
        let rest_r = report_spec(rest, km, layer);
        let full = report_spec(resolved, km, layer);
        lemma_report_contains(rest, km, layer, code);
        assert forall|i: int| 0 <= i < rest.len() && #[trigger] rest[i] implies resolved[i]
            == rest[i] by {}
        if full.contains(code) {
            // every code of the report came from the prefix report or from
            // the last key's mapping
            let w = choose|w: int| 0 <= w < full.len() && full[w] == code;
            if w < rest_r.len() {
                assert(rest_r[w] == code);
                assert(rest_r.contains(code));
            } else {
                assert(resolved[last] && km.code_at(layer, last) == Some(code));
            }
        }
        if exists|i: int| 0 <= i < resolved.len() && #[trigger] resolved[i]
            && km.code_at(layer, i) == Some(code) {
            let i = choose|i: int| 0 <= i < resolved.len() && #[trigger] resolved[i]
                && km.code_at(layer, i) == Some(code);
            if i < last {
                assert(rest[i] && km.code_at(layer, i) == Some(code));
                assert(rest_r.contains(code));
                let w = choose|w: int| 0 <= w < rest_r.len() && rest_r[w] == code;
                assert(full[w] == code);
                assert(full.contains(code));
            } else {
                // the last key maps `code`: it is either newly pushed or
                // already present in the prefix report
                if rest_r.contains(code) {
                    let w = choose|w: int| 0 <= w < rest_r.len() && rest_r[w] == code;
                    assert(full[w] == code);
                    assert(full.contains(code));
                } else {
                    assert(full[full.len() - 1] == code);
                    assert(full.contains(code));
                }
            }
        }
    }
}

/// The report is a set: no usage code appears twice, whatever the keymap
/// maps — a code already contributed is never pushed again.
pub proof fn lemma_report_distinct(resolved: Seq<bool>, km: Keymap, layer: int)
    ensures
        codes_distinct(report_spec(resolved, km, layer)),
    decreases resolved.len(),
{
    if resolved.len() != 0 {
        let rest = resolved.drop_last();
        let last = resolved.len() - 1;
        let rest_r = report_spec(rest, km, layer);
        let full = report_spec(resolved, km, layer);
        lemma_report_distinct(rest, km, layer);
        if resolved[last] && km.code_at(layer, last) is Some
            && !rest_r.contains(km.code_at(layer, last)->Some_0) {
            let c0 = km.code_at(layer, last)->Some_0;
            assert forall|i: int, j: int| 0 <= i < j < full.len() implies full[i] != full[j] by {
                if j == full.len() - 1 {
                    assert(full[i] == rest_r[i]);
                    assert(!rest_r.contains(c0));
                    assert(rest_r[i] != c0);
                }
            }
        }
    }
}

/// Assembly is idempotent: any two reports assembled from the same
/// resolved flags, keymap and layer are identical — the assembler has no
/// hidden tick-to-tick state.
pub proof fn lemma_assemble_idempotent(
    resolved: Seq<bool>,
    km: Keymap,
    layer: int,
    r1: Seq<u8>,
    r2: Seq<u8>,
)
    requires
        r1 == report_spec(resolved, km, layer),
        r2 == report_spec(resolved, km, layer),
    ensures
        r1 == r2,
{
}

/// SOCD neutrality carried through to the report: when the snap policy is
/// on and both keys of a pair are pressed, a usage code that only that
/// pair's keys map to does not appear in the report, even though the keys'
/// physical `actuated` flags stay true.
pub proof fn lemma_socd_report_neutral(
    s: Seq<KeyState>,
    pairs: Seq<(usize, usize)>,
    km: Keymap,
    layer: int,
    j: int,
    code: u8,
)
    requires
        0 <= j < pairs.len(),
        pair_conflicts(s, pairs[j]),
        forall|i: int|
            0 <= i < s.len() && i != pairs[j].0 as int && i != pairs[j].1 as int
                ==> #[trigger] km.code_at(layer, i) != Some(code),
    ensures
        !report_spec(resolved_table_spec(s, pairs, true), km, layer).contains(code),
{
    let resolved = resolved_table_spec(s, pairs, true);
    lemma_socd_neutral(s, pairs, j);
    lemma_report_contains(resolved, km, layer, code);
    if report_spec(resolved, km, layer).contains(code) {
        let i = choose|i: int| 0 <= i < resolved.len() && #[trigger] resolved[i]
            && km.code_at(layer, i) == Some(code);
        assert(!resolved[pairs[j].0 as int]);
        assert(!resolved[pairs[j].1 as int]);
    }
}

} // verus!
