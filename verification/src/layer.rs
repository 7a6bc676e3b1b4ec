//! Layer selector: scans the activation-rule table in its fixed order; the
//! last rule whose activation key is resolved-actuated picks the active
//! layer, and layer 0 is the default when none is. The total order makes
//! the choice deterministic when several activation keys are held at once.

use vstd::prelude::*;

verus! {

/// Every rule names an activation key inside the table.
pub open spec fn rules_in_bounds(rules: Seq<(usize, usize)>, len: int) -> bool {
    forall|j: int| 0 <= j < rules.len() ==> (#[trigger] rules[j]).0 < len
}

/// Rule `j`'s activation key is resolved-actuated.
pub open spec fn rule_active(resolved: Seq<bool>, rules: Seq<(usize, usize)>, j: int) -> bool {
    rules[j].0 < resolved.len() && resolved[rules[j].0 as int]
}

/// The layer the rule scan selects: the layer of the last rule in table
/// order whose activation key is resolved-actuated, or 0 if there is none.
pub open spec fn selected_layer_spec(resolved: Seq<bool>, rules: Seq<(usize, usize)>) -> usize
    decreases rules.len(),
{
    if rules.len() == 0 {
        0
    } else if rule_active(resolved, rules, rules.len() - 1) {
        rules[rules.len() - 1].1
    } else {
        selected_layer_spec(resolved, rules.drop_last())
    }
}

/// Select the active layer for this tick from the resolved actuation flags.
pub fn select_layer(resolved: &Vec<bool>, rules: &Vec<(usize, usize)>) -> (layer: usize)
    requires
        rules_in_bounds(rules@, resolved@.len() as int),
    ensures
        layer == selected_layer_spec(resolved@, rules@),
{
    let m: usize = rules.len();
    let mut layer: usize = 0;
    let mut j: usize = 0;
    while j < m
        invariant
            j <= m,
            rules@.len() == m,
            rules_in_bounds(rules@, resolved@.len() as int),
            layer == selected_layer_spec(resolved@, rules@.take(j as int)),
        decreases m - j,
    {
        let (key, rule_layer): (usize, usize) = rules[j];
        if resolved[key] {
            layer = rule_layer;
        }
        proof {
            let taken = rules@.take(j as int + 1);
            assert(taken.drop_last() =~= rules@.take(j as int));
            assert(taken[taken.len() - 1] == rules@[j as int]);
        }
        j = j + 1;
    }
    proof {
        assert(rules@.take(m as int) =~= rules@);
    }
    layer
}

/// Last-matching-rule-wins, stated positively: if rule `j`'s activation key
/// is held and no later rule's key is, the scan selects rule `j`'s layer.
/// Together with the default case below this pins the selection for every
/// combination of held activation keys, so holding the same keys always
/// yields the same layer.
pub proof fn lemma_layer_last_match(resolved: Seq<bool>, rules: Seq<(usize, usize)>, j: int)
    requires
        0 <= j < rules.len(),
        rule_active(resolved, rules, j),
        forall|k: int| j < k < rules.len() ==> !rule_active(resolved, rules, k),
    ensures
        selected_layer_spec(resolved, rules) == rules[j].1,
    decreases rules.len(),
{
    if j == rules.len() - 1 {
    } else {
        assert(!rule_active(resolved, rules, rules.len() - 1));
        assert(rules.drop_last()[j] == rules[j]);
        assert forall|k: int| j < k < rules.drop_last().len() implies !rule_active(
            resolved,
            rules.drop_last(),
            k,
        ) by {
            assert(!rule_active(resolved, rules, k));
            assert(rules.drop_last()[k] == rules[k]);
        }
        lemma_layer_last_match(resolved, rules.drop_last(), j);
    }
}

/// When no rule's activation key is held, the default layer 0 is selected.
pub proof fn lemma_layer_default(resolved: Seq<bool>, rules: Seq<(usize, usize)>)
    requires
        forall|k: int| 0 <= k < rules.len() ==> !rule_active(resolved, rules, k),
    ensures
        selected_layer_spec(resolved, rules) == 0,
    decreases rules.len(),
{
    if rules.len() != 0 {
        assert forall|k: int| 0 <= k < rules.drop_last().len() implies !rule_active(
            resolved,
            rules.drop_last(),
            k,
        ) by {
            assert(!rule_active(resolved, rules, k));
            assert(rules.drop_last()[k] == rules[k]);
        }
        lemma_layer_default(resolved, rules.drop_last());
    }
}

} // verus!
