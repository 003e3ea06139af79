use vstd::prelude::*;

verus! {

use vstd::multiset::Multiset;
use vstd::seq_lib::lemma_multiset_commutative;

use crate::functions::FunctionRegistry;
use crate::semantics::EvalFault;
use crate::semantics::eval_cond;
use crate::semantics::evaluation_of;
use crate::semantics::run_rules;
use crate::semantics::rule_insert;
use crate::semantics::sort_rules;
use crate::types::Condition;
use crate::types::OutcomeRepr;
use crate::types::Rule;
use crate::types::ValueRepr;

/// An empty conjunction holds, and an empty disjunction does not, whatever
/// the records and the registered functions.
pub proof fn lemma_vacuous_conditions<R: FunctionRegistry>(
    c_and: Condition,
    c_or: Condition,
    input: Map<Seq<char>, ValueRepr>,
    context: Map<Seq<char>, ValueRepr>,
    funcs: R,
)
    requires
        c_and matches Condition::And(cs) && cs@.len() == 0,
        c_or matches Condition::Or(cs) && cs@.len() == 0,
    ensures
        eval_cond(c_and, input, context, funcs) == Ok::<bool, EvalFault>(true),
        eval_cond(c_or, input, context, funcs) == Ok::<bool, EvalFault>(false),
{
}

/// Evaluation is a function of the rule set, the two records, the registered
/// functions and the policy: two evaluations over the same state agree,
/// outcome for outcome.  (This covers the model up to rendering; what the
/// render service makes of a string outcome is its own affair.)
pub proof fn lemma_evaluation_deterministic<R: FunctionRegistry>(
    rules: Seq<Rule>,
    input: Map<Seq<char>, ValueRepr>,
    context: Map<Seq<char>, ValueRepr>,
    funcs: R,
    stop: bool,
    r1: Result<Seq<OutcomeRepr>, EvalFault>,
    r2: Result<Seq<OutcomeRepr>, EvalFault>,
)
    requires
        r1 == evaluation_of(rules, input, context, funcs, stop),
        r2 == evaluation_of(rules, input, context, funcs, stop),
    ensures
        r1 == r2,
{
}

/// Descending priority, as the evaluation order has it.
pub open spec fn sorted_desc(s: Seq<Rule>) -> bool {
    forall|i: int, j: int| 0 <= i < j < s.len() ==> s[i].priority >= s[j].priority
}

/// What `rule_insert` is made of: the inserted rule, and the rules already
/// there.
proof fn lemma_rule_insert_elements(s: Seq<Rule>, r: Rule)
    ensures
        rule_insert(s, r).len() == s.len() + 1,
        forall|i: int|
            0 <= i < rule_insert(s, r).len() ==> ((#[trigger] rule_insert(s, r)[i]) == r
                || s.contains(rule_insert(s, r)[i])),
    decreases s.len(),
{
    if s.len() == 0 {
    } else if r.priority > s[0].priority {
    } else {
        lemma_rule_insert_elements(s.drop_first(), r);
        assert forall|i: int| 0 <= i < rule_insert(s, r).len() implies ((
        #[trigger] rule_insert(s, r)[i]) == r || s.contains(rule_insert(s, r)[i])) by {
            if i == 0 {
                assert(s[0] == rule_insert(s, r)[0]);
            } else {
                let e = rule_insert(s, r)[i];
                assert(e == rule_insert(s.drop_first(), r)[i - 1]);
                if e != r {
                    let w = choose|w: int|
                        0 <= w < s.drop_first().len() && s.drop_first()[w] == e;
                    assert(s[w + 1] == e);
                }
            }
        }
    }
}

/// A stable descending insertion keeps the order descending.
proof fn lemma_rule_insert_sorted(s: Seq<Rule>, r: Rule)
    requires
        sorted_desc(s),
    ensures
        sorted_desc(rule_insert(s, r)),
    decreases s.len(),
{
    if s.len() == 0 {
    } else if r.priority > s[0].priority {
    } else {
        assert(sorted_desc(s.drop_first()));
        lemma_rule_insert_sorted(s.drop_first(), r);
        lemma_rule_insert_elements(s.drop_first(), r);
        let t = rule_insert(s, r);
        assert forall|i: int, j: int| 0 <= i < j < t.len() implies t[i].priority
            >= t[j].priority by {
            if i == 0 {
                let e = rule_insert(s.drop_first(), r)[j - 1];
                assert(t[j] == e);
                if e == r {
                } else {
                    let w = choose|w: int|
                        0 <= w < s.drop_first().len() && s.drop_first()[w] == e;
                    assert(s[w + 1] == e);
                }
            } else {
                assert(t[i] == rule_insert(s.drop_first(), r)[i - 1]);
                assert(t[j] == rule_insert(s.drop_first(), r)[j - 1]);
            }
        }
    }
}

/// The evaluation order is descending: no rule runs before one of higher
/// priority has run.
pub proof fn lemma_sort_rules_sorted(s: Seq<Rule>)
    ensures
        sorted_desc(sort_rules(s)),
    decreases s.len(),
{
    if s.len() > 0 {
        lemma_sort_rules_sorted(s.drop_last());
        lemma_rule_insert_sorted(sort_rules(s.drop_last()), s.last());
    }
}

/// The evaluation order is a permutation of the rule set: nothing appears,
/// nothing is lost, nothing is doubled.
pub proof fn lemma_sort_rules_permutation(s: Seq<Rule>)
    ensures
        sort_rules(s).to_multiset() == s.to_multiset(),
    decreases s.len(),
{
    broadcast use vstd::seq_lib::group_to_multiset_ensures;

    if s.len() > 0 {
        lemma_sort_rules_permutation(s.drop_last());
        lemma_rule_insert_multiset(sort_rules(s.drop_last()), s.last());
        assert(s =~= s.drop_last().push(s.last()));
        assert(s.to_multiset() =~= s.drop_last().to_multiset().insert(s.last()));
    }
}

proof fn lemma_rule_insert_multiset(s: Seq<Rule>, r: Rule)
    ensures
        rule_insert(s, r).to_multiset() == s.to_multiset().insert(r),
    decreases s.len(),
{
    broadcast use vstd::seq_lib::group_to_multiset_ensures;

    if s.len() == 0 {
        assert(rule_insert(s, r) =~= Seq::<Rule>::empty().push(r));
        assert(s.to_multiset() =~= Multiset::<Rule>::empty());
    } else if r.priority > s[0].priority {
        lemma_multiset_commutative(seq![r], s);
        assert(seq![r].to_multiset() =~= Multiset::<Rule>::empty().insert(r));
    } else {
        lemma_rule_insert_multiset(s.drop_first(), r);
        lemma_multiset_commutative(seq![s[0]], rule_insert(s.drop_first(), r));
        lemma_multiset_commutative(seq![s[0]], s.drop_first());
        assert(s =~= seq![s[0]] + s.drop_first());
        assert(seq![s[0]].to_multiset() =~= Multiset::<Rule>::empty().insert(s[0]));
    }
}

/// Stability: among the rules of one priority, the evaluation order is the
/// declaration order, exactly.
pub proof fn lemma_sort_rules_stable(s: Seq<Rule>, pred: spec_fn(Rule) -> bool, p: int)
    requires
        forall|x: Rule| #[trigger] pred(x) == (x.priority == p),
    ensures
        sort_rules(s).filter(pred) == s.filter(pred),
    decreases s.len(),
{
    reveal(Seq::filter);
    if s.len() > 0 {
        lemma_sort_rules_stable(s.drop_last(), pred, p);
        lemma_sort_rules_sorted(s.drop_last());
        lemma_rule_insert_filter(sort_rules(s.drop_last()), s.last(), pred, p);
    }
}

proof fn lemma_rule_insert_filter(s: Seq<Rule>, r: Rule, pred: spec_fn(Rule) -> bool, p: int)
    requires
        sorted_desc(s),
        forall|x: Rule| #[trigger] pred(x) == (x.priority == p),
    ensures
        rule_insert(s, r).filter(pred) == (if pred(r) {
            s.filter(pred).push(r)
        } else {
            s.filter(pred)
        }),
    decreases s.len(),
{
    reveal(Seq::filter);
    assert(Seq::<Rule>::empty().filter(pred) == Seq::<Rule>::empty());
    if s.len() == 0 {
        assert(rule_insert(s, r) =~= seq![r]);
        assert(seq![r].drop_last() =~= Seq::<Rule>::empty());
        assert(s.filter(pred) == Seq::<Rule>::empty());
        if pred(r) {
            assert(rule_insert(s, r).filter(pred) =~= s.filter(pred).push(r));
        } else {
            assert(rule_insert(s, r).filter(pred) =~= s.filter(pred));
        }
    } else if r.priority > s[0].priority {
        Seq::filter_distributes_over_add(seq![r], s, pred);
        if pred(r) {
            assert(r.priority == p);
            assert forall|i: int| 0 <= i < s.len() implies !pred(s[i]) by {
                assert(s[0].priority >= s[i].priority || i == 0);
            }
            s.lemma_all_neg_filter_empty(pred);
            assert(seq![r].drop_last() =~= Seq::<Rule>::empty());
            assert(seq![r].filter(pred) =~= Seq::<Rule>::empty().push(r));
            assert(seq![r].filter(pred) + s.filter(pred) =~= s.filter(pred).push(r));
        } else {
            assert(seq![r].drop_last() =~= Seq::<Rule>::empty());
            assert(seq![r].filter(pred) =~= Seq::<Rule>::empty());
            assert(seq![r].filter(pred) + s.filter(pred) =~= s.filter(pred));
        }
    } else {
        assert(sorted_desc(s.drop_first()));
        lemma_rule_insert_filter(s.drop_first(), r, pred, p);
        Seq::filter_distributes_over_add(seq![s[0]], rule_insert(s.drop_first(), r), pred);
        Seq::filter_distributes_over_add(seq![s[0]], s.drop_first(), pred);
        assert(rule_insert(s, r) =~= seq![s[0]] + rule_insert(s.drop_first(), r));
        assert(s =~= seq![s[0]] + s.drop_first());
        if pred(r) {
            assert((seq![s[0]].filter(pred) + s.drop_first().filter(pred)).push(r) =~= seq![
                s[0],
            ].filter(pred) + s.drop_first().filter(pred).push(r));
        }
    }
}

/// The outcomes of the satisfied rules of `rs`, in order.
pub open spec fn matched_outcomes<R: FunctionRegistry>(
    rs: Seq<Rule>,
    input: Map<Seq<char>, ValueRepr>,
    context: Map<Seq<char>, ValueRepr>,
    funcs: R,
) -> Seq<OutcomeRepr>
    decreases rs,
{
    if rs.len() == 0 {
        Seq::empty()
    } else {
        let rest = matched_outcomes(rs.drop_first(), input, context, funcs);
        if eval_cond(rs[0].condition, input, context, funcs) == Ok::<bool, EvalFault>(true) {
            seq![rs[0].outcome@] + rest
        } else {
            rest
        }
    }
}

/// Whether the records satisfy a rule's condition.
pub open spec fn satisfies<R: FunctionRegistry>(
    r: Rule,
    input: Map<Seq<char>, ValueRepr>,
    context: Map<Seq<char>, ValueRepr>,
    funcs: R,
) -> bool {
    eval_cond(r.condition, input, context, funcs) == Ok::<bool, EvalFault>(true)
}

/// `matched_outcomes`, read another way: the rules the records satisfy,
/// filtered out in order, each contributing its outcome.
pub proof fn lemma_matched_outcomes_filter<R: FunctionRegistry>(
    rs: Seq<Rule>,
    input: Map<Seq<char>, ValueRepr>,
    context: Map<Seq<char>, ValueRepr>,
    funcs: R,
)
    ensures
        matched_outcomes(rs, input, context, funcs) == rs.filter(
            |r: Rule| satisfies(r, input, context, funcs),
        ).map_values(|r: Rule| r.outcome@),
    decreases rs,
{
    reveal(Seq::filter);
    let pred = |r: Rule| satisfies(r, input, context, funcs);
    let view_of = |r: Rule| r.outcome@;
    if rs.len() == 0 {
        assert(rs.filter(pred).map_values(view_of) =~= Seq::<OutcomeRepr>::empty());
    } else {
        lemma_matched_outcomes_filter(rs.drop_last(), input, context, funcs);
        lemma_matched_outcomes_drop_last(rs, input, context, funcs);
        if pred(rs.last()) {
            assert(rs.filter(pred) == rs.drop_last().filter(pred).push(rs.last()));
            assert(rs.filter(pred).map_values(view_of) =~= rs.drop_last().filter(pred).map_values(
                view_of,
            ) + seq![rs.last().outcome@]);
        } else {
            assert(rs.filter(pred) == rs.drop_last().filter(pred));
            assert(matched_outcomes(rs, input, context, funcs) =~= matched_outcomes(
                rs.drop_last(),
                input,
                context,
                funcs,
            ));
        }
    }
}

/// The last rule's contribution comes last.
proof fn lemma_matched_outcomes_drop_last<R: FunctionRegistry>(
    rs: Seq<Rule>,
    input: Map<Seq<char>, ValueRepr>,
    context: Map<Seq<char>, ValueRepr>,
    funcs: R,
)
    requires
        rs.len() > 0,
    ensures
        matched_outcomes(rs, input, context, funcs) == matched_outcomes(
            rs.drop_last(),
            input,
            context,
            funcs,
        ) + (if satisfies(rs.last(), input, context, funcs) {
            seq![rs.last().outcome@]
        } else {
            Seq::<OutcomeRepr>::empty()
        }),
    decreases rs,
{
    if rs.len() == 1 {
        assert(rs.drop_last() =~= Seq::<Rule>::empty());
        assert(rs.drop_first() =~= Seq::<Rule>::empty());
        assert(matched_outcomes(Seq::<Rule>::empty(), input, context, funcs)
            =~= Seq::<OutcomeRepr>::empty());
        if satisfies(rs[0], input, context, funcs) {
            assert(matched_outcomes(rs, input, context, funcs) =~= Seq::<OutcomeRepr>::empty()
                + seq![rs[0].outcome@]);
        }
    } else {
        lemma_matched_outcomes_drop_last(rs.drop_first(), input, context, funcs);
        assert(rs.drop_first().drop_last() =~= rs.drop_last().drop_first());
        assert(rs.drop_first().last() == rs.last());
        assert(rs.drop_last()[0] == rs[0]);
        let tail_contrib: Seq<OutcomeRepr> = if satisfies(rs.last(), input, context, funcs) {
            seq![rs.last().outcome@]
        } else {
            Seq::<OutcomeRepr>::empty()
        };
        if satisfies(rs[0], input, context, funcs) {
            assert(seq![rs[0].outcome@] + (matched_outcomes(
                rs.drop_last().drop_first(),
                input,
                context,
                funcs,
            ) + tail_contrib) =~= (seq![rs[0].outcome@] + matched_outcomes(
                rs.drop_last().drop_first(),
                input,
                context,
                funcs,
            )) + tail_contrib);
        }
    }
}

/// No condition of `rs` faults against these records and functions.
pub open spec fn no_faults<R: FunctionRegistry>(
    rs: Seq<Rule>,
    input: Map<Seq<char>, ValueRepr>,
    context: Map<Seq<char>, ValueRepr>,
    funcs: R,
) -> bool {
    forall|i: int|
        0 <= i < rs.len() ==> !((#[trigger] eval_cond(rs[i].condition, input, context, funcs))
            is Err)
}

/// A faultless run emits exactly the outcomes of the satisfied rules, in the
/// order given, and terminates with them all.
pub proof fn lemma_run_rules_matches<R: FunctionRegistry>(
    rs: Seq<Rule>,
    input: Map<Seq<char>, ValueRepr>,
    context: Map<Seq<char>, ValueRepr>,
    funcs: R,
)
    requires
        no_faults(rs, input, context, funcs),
    ensures
        run_rules(rs, input, context, funcs, false) == Ok::<Seq<OutcomeRepr>, EvalFault>(
            matched_outcomes(rs, input, context, funcs),
        ),
    decreases rs,
{
    if rs.len() > 0 {
        assert(eval_cond(rs[0].condition, input, context, funcs) is Ok);
        assert forall|i: int| 0 <= i < rs.drop_first().len() implies !((#[trigger] eval_cond(
            rs.drop_first()[i].condition,
            input,
            context,
            funcs,
        )) is Err) by {
            assert(rs.drop_first()[i] == rs[i + 1]);
        }
        lemma_run_rules_matches(rs.drop_first(), input, context, funcs);
    }
}

/// Rule-wise properties survive the sort: every rule of the evaluation order
/// is a rule of the set.
proof fn lemma_rule_insert_all(s: Seq<Rule>, r: Rule, pred: spec_fn(Rule) -> bool)
    requires
        forall|i: int| 0 <= i < s.len() ==> #[trigger] pred(s[i]),
        pred(r),
    ensures
        forall|i: int|
            0 <= i < rule_insert(s, r).len() ==> #[trigger] pred(rule_insert(s, r)[i]),
{
    lemma_rule_insert_elements(s, r);
    assert forall|i: int| 0 <= i < rule_insert(s, r).len() implies #[trigger] pred(
        rule_insert(s, r)[i],
    ) by {
        if rule_insert(s, r)[i] != r {
            let e = rule_insert(s, r)[i];
            let w = choose|w: int| 0 <= w < s.len() && s[w] == e;
            assert(pred(s[w]));
        }
    }
}

proof fn lemma_sort_rules_all(s: Seq<Rule>, pred: spec_fn(Rule) -> bool)
    requires
        forall|i: int| 0 <= i < s.len() ==> #[trigger] pred(s[i]),
    ensures
        forall|i: int| 0 <= i < sort_rules(s).len() ==> #[trigger] pred(sort_rules(s)[i]),
    decreases s.len(),
{
    if s.len() > 0 {
        assert forall|i: int| 0 <= i < s.drop_last().len() implies #[trigger] pred(
            s.drop_last()[i],
        ) by {
            assert(s.drop_last()[i] == s[i]);
        }
        lemma_sort_rules_all(s.drop_last(), pred);
        lemma_rule_insert_all(sort_rules(s.drop_last()), s.last(), pred);
    }
}

/// Where no condition faults — no missing key, no unknown function, no type
/// error — the engine's model returns exactly the outcomes of the rules the
/// records satisfy, one each, in descending-priority, stable order.
pub proof fn lemma_evaluation_exact<R: FunctionRegistry>(
    rules: Seq<Rule>,
    input: Map<Seq<char>, ValueRepr>,
    context: Map<Seq<char>, ValueRepr>,
    funcs: R,
)
    requires
        no_faults(rules, input, context, funcs),
    ensures
        evaluation_of(rules, input, context, funcs, false) == Ok::<Seq<OutcomeRepr>, EvalFault>(
            matched_outcomes(sort_rules(rules), input, context, funcs),
        ),
        evaluation_of(rules, input, context, funcs, false) == Ok::<Seq<OutcomeRepr>, EvalFault>(
            sort_rules(rules).filter(|r: Rule| satisfies(r, input, context, funcs)).map_values(
                |r: Rule| r.outcome@,
            ),
        ),
        sorted_desc(sort_rules(rules)),
        sort_rules(rules).to_multiset() == rules.to_multiset(),
{
    lemma_matched_outcomes_filter(sort_rules(rules), input, context, funcs);
    let pred = |x: Rule| !(eval_cond(x.condition, input, context, funcs) is Err);
    assert forall|i: int| 0 <= i < rules.len() implies #[trigger] pred(rules[i]) by {
        assert(!(eval_cond(rules[i].condition, input, context, funcs) is Err));
    }
    lemma_sort_rules_all(rules, pred);
    assert forall|i: int| 0 <= i < sort_rules(rules).len() implies !((#[trigger] eval_cond(
        sort_rules(rules)[i].condition,
        input,
        context,
        funcs,
    )) is Err) by {
        assert(pred(sort_rules(rules)[i]));
    }
    lemma_run_rules_matches(sort_rules(rules), input, context, funcs);
    lemma_sort_rules_sorted(rules);
    lemma_sort_rules_permutation(rules);
}

} // verus!
