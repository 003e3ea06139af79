use vstd::prelude::*;

verus! {

use crate::error::ErrorRepr;
use crate::functions::FunctionRegistry;
use crate::num::is_numeric_text;
use crate::num::numeric_cmp;
use crate::types::Condition;
use crate::types::OutcomeRepr;
use crate::types::Rule;
use crate::types::ValueRepr;

/// The characters that separate the tokens of a simple condition expression:
/// the Unicode white-space characters, as `str::split_whitespace` splits.
pub open spec fn is_space(c: char) -> bool {
    ('\u{0009}' <= c && c <= '\u{000d}') || c == ' ' || c == '\u{0085}' || c == '\u{00a0}'
        || c == '\u{1680}' || ('\u{2000}' <= c && c <= '\u{200a}') || c == '\u{2028}'
        || c == '\u{2029}' || c == '\u{202f}' || c == '\u{205f}' || c == '\u{3000}'
}

/// Where the token starting at `i` ends: the first position at or after `i`
/// holding a space, or the end of the text.
pub open spec fn token_end(s: Seq<char>, i: int) -> int
    decreases s.len() - i,
{
    if i < 0 || i >= s.len() || is_space(s[i]) {
        i
    } else {
        token_end(s, i + 1)
    }
}

pub proof fn lemma_token_end(s: Seq<char>, i: int)
    requires
        0 <= i <= s.len(),
    ensures
        i <= token_end(s, i) <= s.len(),
        forall|j: int| i <= j < token_end(s, i) ==> !is_space(s[j]),
        token_end(s, i) == s.len() || is_space(s[token_end(s, i)]),
    decreases s.len() - i,
{
    if i < s.len() && !is_space(s[i]) {
        lemma_token_end(s, i + 1);
    }
}

/// The whitespace-separated tokens of `s`, from position `i` on.
pub open spec fn tokens_from(s: Seq<char>, i: int) -> Seq<Seq<char>>
    decreases s.len() - i,
    when 0 <= i <= s.len()
    via tokens_from_decreases
{
    if i >= s.len() {
        Seq::empty()
    } else if is_space(s[i]) {
        tokens_from(s, i + 1)
    } else {
        seq![s.subrange(i, token_end(s, i))] + tokens_from(s, token_end(s, i))
    }
}

#[via_fn]
proof fn tokens_from_decreases(s: Seq<char>, i: int) {
    if 0 <= i && i < s.len() && !is_space(s[i]) {
        lemma_token_end(s, i + 1);
        assert(token_end(s, i) == token_end(s, i + 1));
    }
}

/// The whitespace-separated tokens of a simple condition expression.
pub open spec fn tokens_of(s: Seq<char>) -> Seq<Seq<char>> {
    tokens_from(s, 0)
}

/// The position of the first `(` at or after `i`, or the end of the text.
pub open spec fn first_open(s: Seq<char>, i: int) -> int
    decreases s.len() - i,
{
    if i < 0 || i >= s.len() {
        s.len() as int
    } else if s[i] == '(' {
        i
    } else {
        first_open(s, i + 1)
    }
}

pub proof fn lemma_first_open(s: Seq<char>, i: int)
    requires
        0 <= i <= s.len(),
    ensures
        i <= first_open(s, i) <= s.len(),
        forall|j: int| i <= j < first_open(s, i) ==> s[j] != '(',
        first_open(s, i) < s.len() ==> s[first_open(s, i)] == '(',
    decreases s.len() - i,
{
    if i < s.len() && s[i] != '(' {
        lemma_first_open(s, i + 1);
    }
}

/// Whether a left token has the `name(key)` call form: it holds an opening
/// parenthesis and its last character is a closing one.
pub open spec fn call_shape(t: Seq<char>) -> bool {
    t.contains('(') && t.len() > 0 && t.last() == ')'
}

/// The function name of a call-form token: what stands before its first `(`.
pub open spec fn call_name(t: Seq<char>) -> Seq<char> {
    t.take(first_open(t, 0))
}

/// The argument key of a call-form token: what stands between its first `(`
/// and its final `)`.
pub open spec fn call_arg(t: Seq<char>) -> Seq<char> {
    t.subrange(first_open(t, 0) + 1, t.len() - 1)
}

/// A key resolves against the input record first and the context record
/// second.
pub open spec fn lookup_key(
    input: Map<Seq<char>, ValueRepr>,
    context: Map<Seq<char>, ValueRepr>,
    key: Seq<char>,
) -> Option<ValueRepr> {
    if input.contains_key(key) {
        Some(input[key])
    } else if context.contains_key(key) {
        Some(context[key])
    } else {
        None
    }
}

/// Everything that can make condition evaluation fail.
pub enum EvalFault {
    /// A simple condition without exactly three tokens.
    Malformed,
    /// A key absent from the input and the context record.
    KeyNotFound(Seq<char>),
    /// A call of a function name nobody registered.
    UnknownFunction(Seq<char>),
    /// A registered function's own failure, carried as it was reported.
    Function(ErrorRepr),
    /// A relational comparison on a value whose text is not a number.
    NotNumericText(Seq<char>),
    /// A relational comparison on a value that is neither a number nor a
    /// string.
    NotNumericValue,
    /// A relational comparison against a literal that is not a number.
    BadLiteral(Seq<char>),
    /// An operator token that is none of the five known ones.
    BadOperator(Seq<char>),
}

/// The error the engine reports for a fault.
pub open spec fn fault_error(f: EvalFault) -> ErrorRepr {
    match f {
        EvalFault::Malformed => ErrorRepr::Evaluation(
            "Simple condition must have 3 parts: key operator value"@,
        ),
        EvalFault::KeyNotFound(k) => ErrorRepr::Evaluation("Key '"@ + k + "' not found"@),
        EvalFault::UnknownFunction(n) => ErrorRepr::Evaluation(
            "Unknown function '"@ + n + "'"@,
        ),
        EvalFault::Function(e) => e,
        EvalFault::NotNumericText(t) => ErrorRepr::Evaluation(
            "Cannot parse '"@ + t + "' as number"@,
        ),
        EvalFault::NotNumericValue => ErrorRepr::Evaluation(
            "Value must be a number or numeric string"@,
        ),
        EvalFault::BadLiteral(t) => ErrorRepr::Evaluation(
            "Right-hand side '"@ + t + "' must be a number"@,
        ),
        EvalFault::BadOperator(op) => ErrorRepr::Evaluation("Unsupported operator '"@ + op + "'"@),
    }
}

/// The four numeric comparison operators.
pub open spec fn is_relational(op: Seq<char>) -> bool {
    op == ">"@ || op == "<"@ || op == ">="@ || op == "<="@
}

/// Whether a relational operator holds of a comparison with sign `sign`
/// (negative: left smaller; zero: equal; positive: left greater).
pub open spec fn relational_holds(op: Seq<char>, sign: int) -> bool {
    if op == ">"@ {
        sign > 0
    } else if op == "<"@ {
        sign < 0
    } else if op == ">="@ {
        sign >= 0
    } else {
        sign <= 0
    }
}

/// The text a value offers to a numeric comparison: a number's text, or a
/// string's characters; other values offer none.
pub open spec fn numeric_payload(v: ValueRepr) -> Option<Seq<char>> {
    match v {
        ValueRepr::Number(t) => Some(t),
        ValueRepr::Str(t) => Some(t),
        _ => None,
    }
}

/// One operator applied to a resolved value and a literal token.  The four
/// relational operators compare numerically; `=` compares the value with the
/// literal taken as a string, with no numeric coercion.
pub open spec fn apply_operator(v: ValueRepr, op: Seq<char>, lit: Seq<char>) -> Result<
    bool,
    EvalFault,
> {
    if is_relational(op) {
        match numeric_payload(v) {
            Option::None => Err(EvalFault::NotNumericValue),
            Option::Some(t) => if !is_numeric_text(t) {
                Err(EvalFault::NotNumericText(t))
            } else if !is_numeric_text(lit) {
                Err(EvalFault::BadLiteral(lit))
            } else {
                Ok(relational_holds(op, numeric_cmp(t, lit)))
            },
        }
    } else if op == "="@ {
        Ok(v == ValueRepr::Str(lit))
    } else {
        Err(EvalFault::BadOperator(op))
    }
}

/// A left token resolved to a value: a call-form token looks its argument up
/// and passes it to the registered function; a bare token is itself the key.
pub open spec fn resolve_operand<R: FunctionRegistry>(
    t: Seq<char>,
    input: Map<Seq<char>, ValueRepr>,
    context: Map<Seq<char>, ValueRepr>,
    funcs: R,
) -> Result<ValueRepr, EvalFault> {
    if call_shape(t) {
        let name = call_name(t);
        let arg = call_arg(t);
        match lookup_key(input, context, arg) {
            Option::None => Err(EvalFault::KeyNotFound(arg)),
            Option::Some(v) => if !funcs.spec_has(name) {
                Err(EvalFault::UnknownFunction(name))
            } else {
                match funcs.spec_result(name, v) {
                    Ok(out) => Ok(out),
                    Err(e) => Err(EvalFault::Function(e)),
                }
            },
        }
    } else {
        match lookup_key(input, context, t) {
            Option::None => Err(EvalFault::KeyNotFound(t)),
            Option::Some(v) => Ok(v),
        }
    }
}

/// One simple condition evaluated: exactly three tokens, the left one
/// resolved, the operator applied.
pub open spec fn eval_simple<R: FunctionRegistry>(
    expr: Seq<char>,
    input: Map<Seq<char>, ValueRepr>,
    context: Map<Seq<char>, ValueRepr>,
    funcs: R,
) -> Result<bool, EvalFault> {
    let ts = tokens_of(expr);
    if ts.len() != 3 {
        Err(EvalFault::Malformed)
    } else {
        match resolve_operand(ts[0], input, context, funcs) {
            Err(f) => Err(f),
            Ok(v) => apply_operator(v, ts[1], ts[2]),
        }
    }
}

/// A condition tree evaluated against the two records and the registered
/// functions.
pub open spec fn eval_cond<R: FunctionRegistry>(
    c: Condition,
    input: Map<Seq<char>, ValueRepr>,
    context: Map<Seq<char>, ValueRepr>,
    funcs: R,
) -> Result<bool, EvalFault>
    decreases c,
{
    match c {
        Condition::Simple(e) => eval_simple(e@, input, context, funcs),
        Condition::And(cs) => eval_all(cs@, input, context, funcs),
        Condition::Or(cs) => eval_any(cs@, input, context, funcs),
    }
}

/// A conjunction, left to right: the first `false` or the first fault ends
/// it; empty is true.
pub open spec fn eval_all<R: FunctionRegistry>(
    cs: Seq<Condition>,
    input: Map<Seq<char>, ValueRepr>,
    context: Map<Seq<char>, ValueRepr>,
    funcs: R,
) -> Result<bool, EvalFault>
    decreases cs,
{
    if cs.len() == 0 {
        Ok(true)
    } else {
        match eval_cond(cs[0], input, context, funcs) {
            Err(f) => Err(f),
            Ok(false) => Ok(false),
            Ok(true) => eval_all(cs.drop_first(), input, context, funcs),
        }
    }
}

/// A disjunction, left to right: the first `true` or the first fault ends
/// it; empty is false.
pub open spec fn eval_any<R: FunctionRegistry>(
    cs: Seq<Condition>,
    input: Map<Seq<char>, ValueRepr>,
    context: Map<Seq<char>, ValueRepr>,
    funcs: R,
) -> Result<bool, EvalFault>
    decreases cs,
{
    if cs.len() == 0 {
        Ok(false)
    } else {
        match eval_cond(cs[0], input, context, funcs) {
            Err(f) => Err(f),
            Ok(true) => Ok(true),
            Ok(false) => eval_any(cs.drop_first(), input, context, funcs),
        }
    }
}

/// Inserts the latest rule behind every rule whose priority is at least its
/// own: the position a stable descending sort gives it.
pub open spec fn rule_insert(s: Seq<Rule>, r: Rule) -> Seq<Rule>
    decreases s,
{
    if s.len() == 0 {
        seq![r]
    } else if r.priority > s[0].priority {
        seq![r] + s
    } else {
        seq![s[0]] + rule_insert(s.drop_first(), r)
    }
}

/// The rules in descending priority; rules of equal priority keep their
/// declaration order.
pub open spec fn sort_rules(s: Seq<Rule>) -> Seq<Rule>
    decreases s,
{
    if s.len() == 0 {
        Seq::empty()
    } else {
        rule_insert(sort_rules(s.drop_last()), s.last())
    }
}

/// A rule sequence run in the order given: each matching rule contributes its
/// outcome; a fault ends the run; under `stop`, the first match does.
pub open spec fn run_rules<R: FunctionRegistry>(
    rs: Seq<Rule>,
    input: Map<Seq<char>, ValueRepr>,
    context: Map<Seq<char>, ValueRepr>,
    funcs: R,
    stop: bool,
) -> Result<Seq<OutcomeRepr>, EvalFault>
    decreases rs,
{
    if rs.len() == 0 {
        Ok(Seq::empty())
    } else {
        match eval_cond(rs[0].condition, input, context, funcs) {
            Err(f) => Err(f),
            Ok(false) => run_rules(rs.drop_first(), input, context, funcs, stop),
            Ok(true) => if stop {
                Ok(seq![rs[0].outcome@])
            } else {
                match run_rules(rs.drop_first(), input, context, funcs, stop) {
                    Err(f) => Err(f),
                    Ok(rest) => Ok(seq![rs[0].outcome@] + rest),
                }
            },
        }
    }
}

/// What `evaluate` computes before any outcome is rendered: the rules sorted,
/// then run.
pub open spec fn evaluation_of<R: FunctionRegistry>(
    rules: Seq<Rule>,
    input: Map<Seq<char>, ValueRepr>,
    context: Map<Seq<char>, ValueRepr>,
    funcs: R,
    stop: bool,
) -> Result<Seq<OutcomeRepr>, EvalFault> {
    run_rules(sort_rules(rules), input, context, funcs, stop)
}

/// A render failure's shape: the render service's message behind a fixed
/// prefix.
pub open spec fn is_render_error(e: ErrorRepr) -> bool {
    exists|m: Seq<char>| e == ErrorRepr::Evaluation("Template rendering failed: "@ + m)
}

/// How a returned outcome sequence relates to the model's: keys and
/// non-string values carried over exactly; a string value replaced by what
/// the render service produced, again a string.
pub open spec fn rendered_from(v: Seq<OutcomeRepr>, outs: Seq<OutcomeRepr>) -> bool {
    &&& v.len() == outs.len()
    &&& forall|i: int| 0 <= i < outs.len() ==> (#[trigger] v[i]).key == outs[i].key
    &&& forall|i: int|
        0 <= i < outs.len() ==> (if outs[i].value is Str {
            (#[trigger] v[i]).value is Str
        } else {
            v[i].value == outs[i].value
        })
}

/// Whether a run reaches a matched rule whose outcome value is a string: the
/// only case in which the render service is consulted, and so the only case
/// in which a render failure can arise.
pub open spec fn consults_renderer<R: FunctionRegistry>(
    rs: Seq<Rule>,
    input: Map<Seq<char>, ValueRepr>,
    context: Map<Seq<char>, ValueRepr>,
    funcs: R,
    stop: bool,
) -> bool
    decreases rs,
{
    if rs.len() == 0 {
        false
    } else {
        match eval_cond(rs[0].condition, input, context, funcs) {
            Err(_) => false,
            Ok(true) => rs[0].outcome.value@ is Str || (!stop && consults_renderer(
                rs.drop_first(),
                input,
                context,
                funcs,
                stop,
            )),
            Ok(false) => consults_renderer(rs.drop_first(), input, context, funcs, stop),
        }
    }
}

} // verus!
