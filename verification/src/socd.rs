//! SOCD resolver: for each configured opposing-direction pair that is
//! pressed on both sides, the reportable actuation of both sides is forced
//! to neutral for this tick. The underlying key table is never written: the
//! physical `actuated` flags stay as they are for the next tick's
//! hysteresis.

use vstd::prelude::*;

use crate::keystate::KeyState;

verus! {

/// Every pair names two keys inside the table.
pub open spec fn pairs_in_bounds(pairs: Seq<(usize, usize)>, len: int) -> bool {
    forall|j: int| 0 <= j < pairs.len() ==> (#[trigger] pairs[j]).0 < len && pairs[j].1 < len
}

/// Both sides of a pair are physically pressed this tick.
pub open spec fn pair_conflicts(s: Seq<KeyState>, p: (usize, usize)) -> bool {
    p.0 < s.len() && p.1 < s.len() && s[p.0 as int].actuated && s[p.1 as int].actuated
}

/// The pair binds key `i` and is in conflict.
pub open spec fn pair_hits(s: Seq<KeyState>, p: (usize, usize), i: int) -> bool {
    pair_conflicts(s, p) && (p.0 as int == i || p.1 as int == i)
}

/// Key `i` is suppressed by one of the first `n` pairs.
pub open spec fn suppressed_before(s: Seq<KeyState>, pairs: Seq<(usize, usize)>, n: int, i: int) -> bool {
    exists|j: int| 0 <= j < n && pair_hits(s, #[trigger] pairs[j], i)
}

/// Key `i` belongs to some conflicting pair this tick.
pub open spec fn suppressed(s: Seq<KeyState>, pairs: Seq<(usize, usize)>, i: int) -> bool {
    suppressed_before(s, pairs, pairs.len() as int, i)
}

/// The reportable actuation of key `i`: its physical press state, minus any
/// suppression when the snap policy is enabled.
pub open spec fn resolved_spec(s: Seq<KeyState>, pairs: Seq<(usize, usize)>, ignore_mask: bool, i: int) -> bool {
    s[i].actuated && !(ignore_mask && suppressed(s, pairs, i))
}

/// The reportable actuation flags of the whole table.
pub open spec fn resolved_table_spec(s: Seq<KeyState>, pairs: Seq<(usize, usize)>, ignore_mask: bool) -> Seq<bool> {
    Seq::new(s.len(), |i: int| resolved_spec(s, pairs, ignore_mask, i))
}

/// Adding one more pair to the scan suppresses exactly the keys that were
/// already suppressed or that the new pair hits.
proof fn lemma_suppressed_step(s: Seq<KeyState>, pairs: Seq<(usize, usize)>, n: int, i: int)
    requires
        0 <= n < pairs.len(),
    ensures
        suppressed_before(s, pairs, n + 1, i)
            <==> (suppressed_before(s, pairs, n, i) || pair_hits(s, pairs[n], i)),
{
    if suppressed_before(s, pairs, n + 1, i) {
        let j = choose|j: int| 0 <= j < n + 1 && pair_hits(s, #[trigger] pairs[j], i);
        if j < n {
            assert(suppressed_before(s, pairs, n, i));
        }
    }
    if suppressed_before(s, pairs, n, i) {
        let j = choose|j: int| 0 <= j < n && pair_hits(s, #[trigger] pairs[j], i);
        assert(0 <= j < n + 1 && pair_hits(s, pairs[j], i));
    }
    if pair_hits(s, pairs[n], i) {
        assert(0 <= n < n + 1 && pair_hits(s, pairs[n], i));
    }
}

/// Compute the reportable actuation flags: one per key, equal to the
/// physical press state except that, when `ignore_mask` is set, both keys
/// of every conflicting pair read as released for this tick.
pub fn resolve_socd(keys: &Vec<KeyState>, pairs: &Vec<(usize, usize)>, ignore_mask: bool) -> (r: Vec<bool>)
    requires
        pairs_in_bounds(pairs@, keys@.len() as int),
    ensures
        r@ == resolved_table_spec(keys@, pairs@, ignore_mask),
        r@.len() == keys@.len(),
        forall|i: int| 0 <= i < keys@.len() ==> #[trigger] r@[i] == resolved_spec(keys@, pairs@, ignore_mask, i),
{
    let n: usize = keys.len();
    let mut r: Vec<bool> = Vec::new();
    let mut i: usize = 0;
    while i < n
        invariant
            i <= n,
            keys@.len() == n,
            r@.len() == i,
            forall|j: int| 0 <= j < i as int ==> #[trigger] r@[j] == keys@[j].actuated,
        decreases n - i,
    {
        r.push(keys[i].actuated);
        i = i + 1;
    }
    if ignore_mask {
        let m: usize = pairs.len();
        let mut p: usize = 0;
        while p < m
            invariant
                p <= m,
                keys@.len() == n,
                pairs@.len() == m,
                pairs_in_bounds(pairs@, n as int),
                r@.len() == n,
                forall|j: int|
                    0 <= j < n as int ==> #[trigger] r@[j]
                        == (keys@[j].actuated && !suppressed_before(keys@, pairs@, p as int, j)),
            decreases m - p,
        {
            let (a, b): (usize, usize) = pairs[p];
            let ghost r_prev = r@;
            if keys[a].actuated && keys[b].actuated {
                r[a] = false;
                r[b] = false;
            }
            proof {
                assert forall|j: int| 0 <= j < n as int implies #[trigger] r@[j]
                    == (keys@[j].actuated && !suppressed_before(keys@, pairs@, p as int + 1, j)) by {
                    lemma_suppressed_step(keys@, pairs@, p as int, j);
                    if pair_hits(keys@, pairs@[p as int], j) {
                        assert(r@[j] == false);
                    } else {
                        assert(r@[j] == r_prev[j]);
                    }
                }
            }
            p = p + 1;
        }
    } else {
        proof {
            assert forall|j: int| 0 <= j < n as int implies #[trigger] r@[j]
                == resolved_spec(keys@, pairs@, false, j) by {}
        }
    }
    assert(r@ =~= resolved_table_spec(keys@, pairs@, ignore_mask));
    r
}

/// SOCD neutrality: when the snap policy is enabled, a conflicting pair
/// contributes nothing to the report — the resolved actuation of both of
/// its keys is false for this tick.
pub proof fn lemma_socd_neutral(s: Seq<KeyState>, pairs: Seq<(usize, usize)>, j: int)
    requires
        0 <= j < pairs.len(),
        pair_conflicts(s, pairs[j]),
    ensures
        !resolved_spec(s, pairs, true, pairs[j].0 as int),
        !resolved_spec(s, pairs, true, pairs[j].1 as int),
{
    assert(pair_hits(s, pairs[j], pairs[j].0 as int));
    assert(pair_hits(s, pairs[j], pairs[j].1 as int));
    assert(suppressed(s, pairs, pairs[j].0 as int));
    assert(suppressed(s, pairs, pairs[j].1 as int));
}

/// A key bound by no pair is never touched by the resolver: its resolved
/// actuation is exactly its physical press state.
pub proof fn lemma_socd_untouched(s: Seq<KeyState>, pairs: Seq<(usize, usize)>, ignore_mask: bool, i: int)
    requires
        0 <= i < s.len(),
        forall|j: int| 0 <= j < pairs.len() ==> (#[trigger] pairs[j]).0 as int != i && pairs[j].1 as int != i,
    ensures
        resolved_spec(s, pairs, ignore_mask, i) == s[i].actuated,
{
    if suppressed(s, pairs, i) {
        let j = choose|j: int| 0 <= j < pairs.len() && pair_hits(s, #[trigger] pairs[j], i);
    }
}

} // verus!
