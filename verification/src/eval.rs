use vstd::prelude::*;

verus! {

use vstd::string::StrSliceExecFns;

use crate::error::RuleEngineError;
use crate::functions::FunctionRegistry;
use crate::num::NumericOrder;
use crate::num::compare_numeric_texts;
use crate::semantics::EvalFault;
use crate::semantics::apply_operator;
use crate::semantics::call_shape;
use crate::semantics::eval_all;
use crate::semantics::eval_any;
use crate::semantics::eval_cond;
use crate::semantics::eval_simple;
use crate::semantics::fault_error;
use crate::semantics::first_open;
use crate::semantics::is_space;
use crate::semantics::lemma_first_open;
use crate::semantics::lemma_token_end;
use crate::semantics::resolve_operand;
use crate::semantics::token_end;
use crate::semantics::tokens_from;
use crate::semantics::tokens_of;
use crate::text::enclose;
use crate::text::str_eq;
use crate::types::Condition;
use crate::types::Record;
use crate::types::Value;
use crate::types::ValueRepr;

/// The texts of a token list.
pub open spec fn views(ts: Seq<String>) -> Seq<Seq<char>> {
    ts.map_values(|t: String| t@)
}

/// How an executable outcome mirrors the model: the same boolean, or the
/// error the model's fault names.
pub open spec fn reflects_bool(r: Result<bool, RuleEngineError>, m: Result<bool, EvalFault>) -> bool {
    match (r, m) {
        (Ok(b1), Ok(b2)) => b1 == b2,
        (Err(e), Err(f)) => e@ == fault_error(f),
        _ => false,
    }
}

/// As [`reflects_bool`], for a resolved operand value.
pub open spec fn reflects_value(
    r: Result<Value, RuleEngineError>,
    m: Result<ValueRepr, EvalFault>,
) -> bool {
    match (r, m) {
        (Ok(v), Ok(w)) => v@ == w,
        (Err(e), Err(f)) => e@ == fault_error(f),
        _ => false,
    }
}

/// The five operator tokens are pairwise distinct texts.
proof fn lemma_operator_literals()
    ensures
        ">"@ != "<"@,
        ">"@ != ">="@,
        ">"@ != "<="@,
        ">"@ != "="@,
        "<"@ != ">="@,
        "<"@ != "<="@,
        "<"@ != "="@,
        ">="@ != "<="@,
        ">="@ != "="@,
        "<="@ != "="@,
{
    reveal_strlit(">");
    reveal_strlit("<");
    reveal_strlit(">=");
    reveal_strlit("<=");
    reveal_strlit("=");
    assert(">"@ =~= seq!['>']);
    assert("<"@ =~= seq!['<']);
    assert(">="@ =~= seq!['>', '=']);
    assert("<="@ =~= seq!['<', '=']);
    assert("="@ =~= seq!['=']);
    assert(seq!['>'][0] == '>');
    assert(seq!['<'][0] == '<');
    assert(seq!['='][0] == '=');
    assert(seq!['>', '='][0] == '>');
    assert(seq!['<', '='][0] == '<');
    assert(seq!['>'].len() == 1);
    assert(seq!['>', '='].len() == 2);
    assert(seq!['<', '='].len() == 2);
}

fn is_space_char(c: char) -> (r: bool)
    ensures
        r == is_space(c),
{
    ('\u{0009}' <= c && c <= '\u{000d}') || c == ' ' || c == '\u{0085}' || c == '\u{00a0}'
        || c == '\u{1680}' || ('\u{2000}' <= c && c <= '\u{200a}') || c == '\u{2028}'
        || c == '\u{2029}' || c == '\u{202f}' || c == '\u{205f}' || c == '\u{3000}'
}

/// The exclusive end of the token starting at `i`.
fn token_end_exec(expr: &str, i: usize) -> (j: usize)
    requires
        i <= expr@.len(),
    ensures
        j as int == token_end(expr@, i as int),
        i <= j <= expr@.len(),
{
    let n = expr.unicode_len();
    let mut j = i;
    while j < n
        invariant
            i <= j <= n,
            n == expr@.len(),
            token_end(expr@, i as int) == token_end(expr@, j as int),
        decreases n - j,
    {
        if is_space_char(expr.get_char(j)) {
            return j;
        }
        j = j + 1;
        proof {
            assert(token_end(expr@, j as int - 1) == token_end(expr@, j as int));
        }
    }
    j
}

/// The whitespace-separated tokens of an expression, in order.
fn tokenize(expr: &str) -> (r: Vec<String>)
    ensures
        views(r@) == tokens_of(expr@),
{
    let n = expr.unicode_len();
    let mut toks: Vec<String> = Vec::new();
    let mut i: usize = 0;
    proof {
        assert(views(toks@) + tokens_from(expr@, 0) =~= tokens_of(expr@));
    }
    while i < n
        invariant
            0 <= i <= n,
            n == expr@.len(),
            views(toks@) + tokens_from(expr@, i as int) == tokens_of(expr@),
        decreases n - i,
    {
        let c = expr.get_char(i);
        if is_space_char(c) {
            proof {
                assert(tokens_from(expr@, i as int) == tokens_from(expr@, i as int + 1));
            }
            i = i + 1;
        } else {
            let j = token_end_exec(expr, i);
            proof {
                lemma_token_end(expr@, i as int + 1);
                assert(token_end(expr@, i as int) == token_end(expr@, i as int + 1));
                assert(j > i);
                assert(tokens_from(expr@, i as int) == seq![expr@.subrange(i as int, j as int)]
                    + tokens_from(expr@, j as int));
            }
            let tok = expr.substring_char(i, j);
            let ghost old_views = views(toks@);
            toks.push(tok.to_owned());
            proof {
                assert(views(toks@) =~= old_views + seq![expr@.subrange(i as int, j as int)]);
                assert(views(toks@) + tokens_from(expr@, j as int) =~= tokens_of(expr@));
            }
            i = j;
        }
    }
    proof {
        assert(tokens_from(expr@, n as int) =~= Seq::<Seq<char>>::empty());
        assert(views(toks@) =~= tokens_of(expr@));
    }
    toks
}

/// The position of the first `(`, or the text's length.
fn first_open_exec(t: &str) -> (p: usize)
    ensures
        p as int == first_open(t@, 0),
        p <= t@.len(),
{
    let n = t.unicode_len();
    let mut q: usize = 0;
    while q < n
        invariant
            0 <= q <= n,
            n == t@.len(),
            first_open(t@, 0) == first_open(t@, q as int),
        decreases n - q,
    {
        if t.get_char(q) == '(' {
            return q;
        }
        q = q + 1;
        proof {
            assert(first_open(t@, q as int - 1) == first_open(t@, q as int));
        }
    }
    q
}

/// A left token resolved to its value: lookups against the records, and the
/// registered function invoked for a call-form token.
fn resolve_operand_exec<R: FunctionRegistry>(
    t: &String,
    input: &Record,
    context: &Record,
    funcs: &R,
) -> (r: Result<Value, RuleEngineError>)
    ensures
        reflects_value(r, resolve_operand(t@, input@, context@, *funcs)),
{
    let n = t.as_str().unicode_len();
    let p = first_open_exec(t.as_str());
    proof {
        lemma_first_open(t@, 0);
        if t@.contains('(') {
            let w = choose|w: int| 0 <= w < t@.len() && t@[w] == '(';
            assert(!(w < first_open(t@, 0)));
        }
        if first_open(t@, 0) < t@.len() {
            assert(t@[first_open(t@, 0)] == '(');
            assert(t@.contains('('));
        }
    }
    let is_call = if p < n {
        t.as_str().get_char(n - 1) == ')'
    } else {
        false
    };
    proof {
        assert(is_call == call_shape(t@));
    }
    if is_call {
        proof {
            assert(t@[p as int] == '(');
            assert(t@[n as int - 1] == ')');
            assert(p as int != n as int - 1);
        }
        let name = t.as_str().substring_char(0, p);
        let arg = t.as_str().substring_char(p + 1, n - 1);
        proof {
            assert(name@ == t@.take(first_open(t@, 0)));
            assert(arg@ == t@.subrange(first_open(t@, 0) + 1, t@.len() - 1));
        }
        let found = match input.get(arg) {
            Some(v) => Some(v),
            None => context.get(arg),
        };
        match found {
            None => Err(
                RuleEngineError::EvaluationError(enclose("Key '", arg, "' not found")),
            ),
            Some(v) => match funcs.call(name, v) {
                None => Err(
                    RuleEngineError::EvaluationError(enclose("Unknown function '", name, "'")),
                ),
                Some(Ok(out)) => Ok(out),
                Some(Err(e)) => Err(e),
            },
        }
    } else {
        let found = match input.get(t.as_str()) {
            Some(v) => Some(v),
            None => context.get(t.as_str()),
        };
        match found {
            None => Err(
                RuleEngineError::EvaluationError(enclose("Key '", t.as_str(), "' not found")),
            ),
            Some(v) => Ok(v.duplicate()),
        }
    }
}

/// One operator applied to a resolved value and the literal token.
fn apply_operator_exec(value: &Value, op: &String, lit: &String) -> (r: Result<
    bool,
    RuleEngineError,
>)
    ensures
        reflects_bool(r, apply_operator(value@, op@, lit@)),
{
    proof {
        lemma_operator_literals();
    }
    let gt = str_eq(op.as_str(), ">");
    let lt = str_eq(op.as_str(), "<");
    let ge = str_eq(op.as_str(), ">=");
    let le = str_eq(op.as_str(), "<=");
    if gt || lt || ge || le {
        let payload = match value {
            Value::Number(s) => Some(s),
            Value::Str(s) => Some(s),
            _ => None,
        };
        match payload {
            None => Err(
                RuleEngineError::EvaluationError(
                    "Value must be a number or numeric string".to_owned(),
                ),
            ),
            Some(text) => match compare_numeric_texts(text.as_str(), lit.as_str()) {
                NumericOrder::LeftNotNumeric => Err(
                    RuleEngineError::EvaluationError(
                        enclose("Cannot parse '", text.as_str(), "' as number"),
                    ),
                ),
                NumericOrder::RightNotNumeric => Err(
                    RuleEngineError::EvaluationError(
                        enclose("Right-hand side '", lit.as_str(), "' must be a number"),
                    ),
                ),
                NumericOrder::Less => Ok(lt || le),
                NumericOrder::Equal => Ok(ge || le),
                NumericOrder::Greater => Ok(gt || ge),
            },
        }
    } else if str_eq(op.as_str(), "=") {
        let holds = match value {
            Value::Str(s) => str_eq(s.as_str(), lit.as_str()),
            _ => false,
        };
        Ok(holds)
    } else {
        Err(
            RuleEngineError::EvaluationError(
                enclose("Unsupported operator '", op.as_str(), "'"),
            ),
        )
    }
}

/// One simple condition evaluated: three tokens, the left one resolved, the
/// operator applied.
fn eval_simple_exec<R: FunctionRegistry>(
    expr: &str,
    input: &Record,
    context: &Record,
    funcs: &R,
) -> (r: Result<bool, RuleEngineError>)
    ensures
        reflects_bool(r, eval_simple(expr@, input@, context@, *funcs)),
{
    let toks = tokenize(expr);
    if toks.len() != 3 {
        return Err(
            RuleEngineError::EvaluationError(
                "Simple condition must have 3 parts: key operator value".to_owned(),
            ),
        );
    }
    proof {
        assert(views(toks@)[0] == toks@[0]@);
        assert(views(toks@)[1] == toks@[1]@);
        assert(views(toks@)[2] == toks@[2]@);
    }
    match resolve_operand_exec(&toks[0], input, context, funcs) {
        Err(e) => Err(e),
        Ok(v) => apply_operator_exec(&v, &toks[1], &toks[2]),
    }
}

/// A condition tree evaluated against the records and the registered
/// functions: the executable mirror of [`eval_cond`].
#[verifier::loop_isolation(false)]
pub(crate) fn eval_condition_exec<R: FunctionRegistry>(
    c: &Condition,
    input: &Record,
    context: &Record,
    funcs: &R,
) -> (r: Result<bool, RuleEngineError>)
    ensures
        reflects_bool(r, eval_cond(*c, input@, context@, *funcs)),
    decreases *c,
{
    match c {
        Condition::Simple(e) => eval_simple_exec(e.as_str(), input, context, funcs),
        Condition::And(cs) => {
            let mut k: usize = 0;
            proof {
                assert(cs@.skip(0) =~= cs@);
            }
            while k < cs.len()
                invariant
                    0 <= k <= cs@.len(),
                    eval_all(cs@, input@, context@, *funcs) == eval_all(
                        cs@.skip(k as int),
                        input@,
                        context@,
                        *funcs,
                    ),
                decreases cs@.len() - k,
            {
                proof {
                    assert(cs@.skip(k as int)[0] == cs@[k as int]);
                    assert(cs@.skip(k as int).drop_first() =~= cs@.skip(k as int + 1));
                }
                match eval_condition_exec(&cs[k], input, context, funcs) {
                    Err(e) => {
                        return Err(e);
                    },
                    Ok(false) => {
                        return Ok(false);
                    },
                    Ok(true) => {
                        k = k + 1;
                    },
                }
            }
            proof {
                assert(cs@.skip(cs@.len() as int) =~= Seq::<Condition>::empty());
            }
            Ok(true)
        },
        Condition::Or(cs) => {
            let mut k: usize = 0;
            proof {
                assert(cs@.skip(0) =~= cs@);
            }
            while k < cs.len()
                invariant
                    0 <= k <= cs@.len(),
                    eval_any(cs@, input@, context@, *funcs) == eval_any(
                        cs@.skip(k as int),
                        input@,
                        context@,
                        *funcs,
                    ),
                decreases cs@.len() - k,
            {
                proof {
                    assert(cs@.skip(k as int)[0] == cs@[k as int]);
                    assert(cs@.skip(k as int).drop_first() =~= cs@.skip(k as int + 1));
                }
                match eval_condition_exec(&cs[k], input, context, funcs) {
                    Err(e) => {
                        return Err(e);
                    },
                    Ok(true) => {
                        return Ok(true);
                    },
                    Ok(false) => {
                        k = k + 1;
                    },
                }
            }
            proof {
                assert(cs@.skip(cs@.len() as int) =~= Seq::<Condition>::empty());
            }
            Ok(false)
        },
    }
}

} // verus!
