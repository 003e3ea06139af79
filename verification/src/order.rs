use vstd::prelude::*;

verus! {

use crate::semantics::rule_insert;
use crate::semantics::sort_rules;
use crate::types::Rule;

/// Where a stable descending insertion places `r` in `s`: `rule_insert`
/// splits `s` at the first rule with a strictly lower priority.
proof fn lemma_rule_insert_at(s: Seq<Rule>, r: Rule, p: int)
    requires
        0 <= p <= s.len(),
        forall|q: int| 0 <= q < p ==> !(r.priority > s[q].priority),
        p < s.len() ==> r.priority > s[p].priority,
    ensures
        rule_insert(s, r) == s.take(p) + seq![r] + s.skip(p),
    decreases s.len(),
{
    if p == 0 {
        if s.len() == 0 {
            assert(rule_insert(s, r) =~= s.take(0) + seq![r] + s.skip(0));
        } else {
            assert(rule_insert(s, r) =~= s.take(0) + seq![r] + s.skip(0));
        }
    } else {
        lemma_rule_insert_at(s.drop_first(), r, p - 1);
        assert(s.drop_first().take(p - 1) =~= s.take(p).drop_first());
        assert(s.drop_first().skip(p - 1) =~= s.skip(p));
        assert(seq![s[0]] + rule_insert(s.drop_first(), r) =~= s.take(p) + seq![r] + s.skip(p));
    }
}

/// The evaluation order of a rule set: indices into `rules`, stably sorted by
/// descending priority.
pub(crate) fn sorted_order(rules: &Vec<Rule>) -> (idx: Vec<usize>)
    ensures
        idx@.len() == rules@.len(),
        forall|k: int| 0 <= k < idx@.len() ==> (#[trigger] idx@[k]) < rules@.len(),
        idx@.map_values(|j: usize| rules@[j as int]) == sort_rules(rules@),
{
    let ghost full = rules@;
    let mut idx: Vec<usize> = Vec::new();
    let mut j: usize = 0;
    proof {
        assert(full.take(0) =~= Seq::<Rule>::empty());
        assert(idx@.map_values(|x: usize| full[x as int]) =~= Seq::<Rule>::empty());
    }
    while j < rules.len()
        invariant
            0 <= j <= full.len(),
            full == rules@,
            idx@.len() == j,
            forall|k: int| 0 <= k < idx@.len() ==> (#[trigger] idx@[k]) < full.len(),
            idx@.map_values(|x: usize| full[x as int]) == sort_rules(full.take(j as int)),
        decreases full.len() - j,
    {
        let ghost mapped = idx@.map_values(|x: usize| full[x as int]);
        let mut p: usize = 0;
        while p < idx.len() && !(rules[j].priority > rules[idx[p]].priority)
            invariant
                0 <= p <= idx@.len(),
                full == rules@,
                0 <= j < full.len(),
                forall|k: int| 0 <= k < idx@.len() ==> (#[trigger] idx@[k]) < full.len(),
                mapped == idx@.map_values(|x: usize| full[x as int]),
                forall|q: int| 0 <= q < p ==> !(full[j as int].priority > (#[trigger] mapped[q]).priority),
            decreases idx@.len() - p,
        {
            proof {
                assert(mapped[p as int] == full[idx@[p as int] as int]);
            }
            p = p + 1;
        }
        proof {
            assert(p < idx@.len() ==> mapped[p as int] == full[idx@[p as int] as int]);
            lemma_rule_insert_at(mapped, full[j as int], p as int);
        }
        let ghost old_idx = idx@;
        idx.insert(p, j);
        j = j + 1;
        proof {
            assert(idx@ == old_idx.insert(p as int, (j - 1) as usize));
            assert(idx@.map_values(|x: usize| full[x as int]) =~= mapped.take(p as int) + seq![
                full[j as int - 1],
            ] + mapped.skip(p as int));
            assert(full.take(j as int).drop_last() =~= full.take(j as int - 1));
            assert(full.take(j as int).last() == full[j as int - 1]);
        }
    }
    proof {
        assert(full.take(full.len() as int) =~= full);
    }
    idx
}

} // verus!
