use vstd::prelude::*;

verus! {

use crate::error::RuleEngineError;
use crate::eval::eval_condition_exec;
use crate::functions::CustomFunction;
use crate::functions::FunctionRegistry;
use crate::functions::NoFunctions;
use crate::functions::Registered;
use crate::order::sorted_order;
use crate::render::RenderRecord;
use crate::render::render_template;
use crate::render::renderer_disable_autoescape;
use crate::render::renderer_new;
use crate::semantics::consults_renderer;
use crate::semantics::evaluation_of;
use crate::semantics::fault_error;
use crate::semantics::is_render_error;
use crate::semantics::rendered_from;
use crate::semantics::run_rules;
use crate::semantics::sort_rules;
use crate::types::Outcome;
use crate::types::entries_map;
use crate::types::OutcomeRepr;
use crate::types::Record;
use crate::types::Rule;
use crate::types::Value;
use crate::types::ValueRepr;

/// The rule engine: it owns a rule set, the registered functions and the
/// stop-on-first-match policy, and evaluates the rules against input and
/// context records.
pub struct RuleEngine<R: FunctionRegistry> {
    pub rules: Vec<Rule>,
    pub functions: R,
    pub stop_on_first_match: bool,
}

impl RuleEngine<NoFunctions> {
    /// An engine over an initial rule set, with no functions registered and
    /// stop-on-first-match off.
    pub fn new(rules: Vec<Rule>) -> (r: RuleEngine<NoFunctions>)
        ensures
            r.rules@ == rules@,
            r.spec_functions() == NoFunctions,
            r.spec_stop() == false,
    {
        RuleEngine { rules, functions: NoFunctions, stop_on_first_match: false }
    }
}

impl<R: FunctionRegistry> RuleEngine<R> {
    /// The engine's registered functions.
    pub open spec fn spec_functions(&self) -> R {
        self.functions
    }

    /// Whether evaluation stops at the first matching rule.
    pub open spec fn spec_stop(&self) -> bool {
        self.stop_on_first_match
    }

    /// Registers one more named function.  A name registered a second time
    /// means the later registration.
    pub fn with_function<F: CustomFunction>(self, name: &str, func: F) -> (r: RuleEngine<
        Registered<F, R>,
    >)
        ensures
            r.rules@ == self.rules@,
            r.spec_stop() == self.spec_stop(),
            forall|n: Seq<char>|
                r.spec_functions().spec_has(n) == (n == name@ || self.spec_functions().spec_has(n)),
            forall|n: Seq<char>, v: ValueRepr|
                r.spec_functions().spec_result(n, v) == (if n == name@ {
                    func.result(v)
                } else {
                    self.spec_functions().spec_result(n, v)
                }),
    {
        RuleEngine {
            rules: self.rules,
            functions: Registered { name: name.to_owned(), func, rest: self.functions },
            stop_on_first_match: self.stop_on_first_match,
        }
    }

    /// Sets the stop-on-first-match policy.
    pub fn with_stop_on_first_match(self, value: bool) -> (r: RuleEngine<R>)
        ensures
            r.rules@ == self.rules@,
            r.spec_functions() == self.spec_functions(),
            r.spec_stop() == value,
    {
        RuleEngine {
            rules: self.rules,
            functions: self.functions,
            stop_on_first_match: value,
        }
    }

    /// Replaces the rule set, wholesale and atomically: evaluations issued
    /// after this call see the new rules and nothing of the old ones.
    pub fn update_rules(&mut self, rules: Vec<Rule>)
        ensures
            final(self).rules@ == rules@,
            final(self).spec_functions() == old(self).spec_functions(),
            final(self).spec_stop() == old(self).spec_stop(),
    {
        self.rules = rules;
    }

    /// Evaluates the rule set against an input record and a context record.
    ///
    /// The rules run in descending priority, stably, as [`evaluation_of`]
    /// lays down: each matching rule contributes its outcome, the first fault
    /// aborts the whole call, and under stop-on-first-match the first match
    /// ends it.  A returned outcome carries its rule's key and value exactly,
    /// except that a string value has been rendered: the render service
    /// replaces it with some string, or fails the call with its message.
    #[verifier::loop_isolation(false)]
    pub fn evaluate(&self, input: &Record, context: &Record) -> (r: Result<
        Vec<Outcome>,
        RuleEngineError,
    >)
        ensures
            ({
                let pre = evaluation_of(
                    self.rules@,
                    input@,
                    context@,
                    self.spec_functions(),
                    self.spec_stop(),
                );
                let consults = consults_renderer(
                    sort_rules(self.rules@),
                    input@,
                    context@,
                    self.spec_functions(),
                    self.spec_stop(),
                );
                match pre {
                    Ok(outs) => (match r {
                        Ok(v) => rendered_from(v@.map_values(|o: Outcome| o@), outs),
                        Err(e) => consults && is_render_error(e@),
                    }),
                    Err(f) => (match r {
                        Err(e) => e@ == fault_error(f) || (consults && is_render_error(e@)),
                        Ok(_) => false,
                    }),
                }
            }),
    {
        let order = sorted_order(&self.rules);
        let ghost sorted = sort_rules(self.rules@);
        let mut renderer = renderer_new();
        renderer_disable_autoescape(&mut renderer);
        let rctx = build_render_context(input, context);
        let mut out: Vec<Outcome> = Vec::new();
        let ghost mut done: Seq<OutcomeRepr> = Seq::empty();
        let mut k: usize = 0;
        proof {
            assert(sorted.skip(0) =~= sorted);
            assert(out@.map_values(|o: Outcome| o@) =~= Seq::<OutcomeRepr>::empty());
        }
        while k < order.len()
            invariant
                0 <= k <= order@.len(),
                order@.len() == sorted.len(),
                rendered_from(out@.map_values(|o: Outcome| o@), done),
                (match run_rules(
                    sorted.skip(k as int),
                    input@,
                    context@,
                    self.spec_functions(),
                    self.spec_stop(),
                ) {
                    Err(f) => run_rules(
                        sorted,
                        input@,
                        context@,
                        self.spec_functions(),
                        self.spec_stop(),
                    ) == Err::<Seq<OutcomeRepr>, crate::semantics::EvalFault>(f),
                    Ok(rest) => run_rules(
                        sorted,
                        input@,
                        context@,
                        self.spec_functions(),
                        self.spec_stop(),
                    ) == Ok::<Seq<OutcomeRepr>, crate::semantics::EvalFault>(done + rest),
                }),
                consults_renderer(
                    sorted.skip(k as int),
                    input@,
                    context@,
                    self.spec_functions(),
                    self.spec_stop(),
                ) ==> consults_renderer(
                    sorted,
                    input@,
                    context@,
                    self.spec_functions(),
                    self.spec_stop(),
                ),
            decreases order@.len() - k,
        {
            let j = order[k];
            proof {
                assert(order@.map_values(|x: usize| self.rules@[x as int])[k as int] == sorted[k as int]);
                assert(self.rules@[order@[k as int] as int] == sorted[k as int]);
                assert(sorted.skip(k as int)[0] == sorted[k as int]);
                assert(sorted.skip(k as int).drop_first() =~= sorted.skip(k as int + 1));
            }
            let rule = &self.rules[j];
            match eval_condition_exec(&rule.condition, input, context, &self.functions) {
                Err(e) => {
                    return Err(e);
                },
                Ok(matched) => {
                    if matched {
                        match process_outcome(&rule.outcome, &mut renderer, &rctx) {
                            Err(e) => {
                                return Err(e);
                            },
                            Ok(o) => {
                                let ghost old_views = out@.map_values(|o2: Outcome| o2@);
                                let ghost old_done = done;
                                out.push(o);
                                proof {
                                    done = done + seq![rule.outcome@];
                                    assert(out@.map_values(|o2: Outcome| o2@) =~= old_views
                                        + seq![o@]);
                                }
                                if self.stop_on_first_match {
                                    return Ok(out);
                                }
                                k = k + 1;
                                proof {
                                    let m = run_rules(
                                        sorted.skip(k as int),
                                        input@,
                                        context@,
                                        self.spec_functions(),
                                        self.spec_stop(),
                                    );
                                    match m {
                                        Ok(rest) => {
                                            assert(old_done + (seq![rule.outcome@] + rest)
                                                =~= done + rest);
                                        },
                                        Err(_) => {},
                                    }
                                }
                            },
                        }
                    } else {
                        k = k + 1;
                    }
                },
            }
        }
        proof {
            assert(sorted.skip(sorted.len() as int) =~= Seq::<Rule>::empty());
        }
        Ok(out)
    }
}

/// The combined render record: every input entry bound first, then every
/// context entry, so a context value overrides an input value under the same
/// key — context precedence for rendering, the reverse of the condition
/// lookup.
#[verifier::loop_isolation(false)]
fn build_render_context(input: &Record, context: &Record) -> (r: RenderRecord)
    ensures
        r@ == input@.union_prefer_right(context@),
{
    let mut rec = RenderRecord::new();
    let ghost in_entries = input.entries@;
    let ghost ctx_entries = context.entries@;
    proof {
        crate::types::lemma_record_entries(input);
        crate::types::lemma_record_entries(context);
        assert(in_entries.take(0) =~= Seq::<(String, Value)>::empty());
    }
    let mut i: usize = 0;
    while i < input.entries.len()
        invariant
            0 <= i <= in_entries.len(),
            rec@ == entries_map(in_entries.take(i as int)),
        decreases in_entries.len() - i,
    {
        let pair = &input.entries[i];
        rec.bind(pair.0.as_str(), &pair.1);
        i = i + 1;
        proof {
            assert(in_entries.take(i as int).drop_last() =~= in_entries.take(i as int - 1));
            assert(in_entries.take(i as int).last() == in_entries[i as int - 1]);
        }
    }
    proof {
        assert(in_entries.take(in_entries.len() as int) =~= in_entries);
        assert(input@.union_prefer_right(Map::<Seq<char>, ValueRepr>::empty()) =~= input@);
        assert(ctx_entries.take(0) =~= Seq::<(String, Value)>::empty());
    }
    let mut i: usize = 0;
    while i < context.entries.len()
        invariant
            0 <= i <= ctx_entries.len(),
            rec@ == input@.union_prefer_right(entries_map(ctx_entries.take(i as int))),
        decreases ctx_entries.len() - i,
    {
        let pair = &context.entries[i];
        rec.bind(pair.0.as_str(), &pair.1);
        i = i + 1;
        proof {
            assert(ctx_entries.take(i as int).drop_last() =~= ctx_entries.take(i as int - 1));
            assert(ctx_entries.take(i as int).last() == ctx_entries[i as int - 1]);
            assert(input@.union_prefer_right(
                entries_map(ctx_entries.take(i as int - 1)),
            ).insert(ctx_entries[i as int - 1].0@, ctx_entries[i as int - 1].1@) =~= input@.union_prefer_right(
                entries_map(ctx_entries.take(i as int)),
            ));
        }
    }
    proof {
        assert(ctx_entries.take(ctx_entries.len() as int) =~= ctx_entries);
    }
    rec
}

/// One matched rule's outcome made ready to hand out: a string value goes
/// through the render service; every other value is copied over verbatim.
fn process_outcome(outcome: &Outcome, renderer: &mut tera::Tera, rctx: &RenderRecord) -> (r:
    Result<Outcome, RuleEngineError>)
    ensures
        !(outcome.value@ is Str) ==> (r matches Ok(o) && o@ == outcome@),
        outcome.value@ is Str ==> (match r {
            Ok(o) => o.key@ == outcome.key@ && o.value@ is Str,
            Err(e) => is_render_error(e@),
        }),
{
    match &outcome.value {
        Value::Str(template) => match render_template(renderer, template.as_str(), rctx.context()) {
            Ok(rendered) => Ok(Outcome { key: outcome.key.clone(), value: Value::Str(rendered) }),
            Err(msg) => {
                let e = RuleEngineError::EvaluationError(
                    crate::text::prefixed("Template rendering failed: ", msg.as_str()),
                );
                proof {
                    assert(e@ == crate::error::ErrorRepr::Evaluation(
                        "Template rendering failed: "@ + msg@,
                    ));
                    assert(is_render_error(e@));
                }
                Err(e)
            },
        },
        _ => Ok(outcome.duplicate()),
    }
}

} // verus!
