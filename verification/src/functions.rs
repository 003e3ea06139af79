use vstd::prelude::*;

verus! {

use crate::error::ErrorRepr;
use crate::error::RuleEngineError;
use crate::types::Value;
use crate::types::ValueRepr;

/// A named transform that conditions can invoke through the `name(key)`
/// operand form.  The embedding application supplies implementations; each
/// must be a pure function of its argument, and `result` is that function.
///
/// An implementation outside this crate is not checked against `apply`'s
/// contract; what the engine proves then holds of `result`, not of the
/// unchecked code.
pub trait CustomFunction {
    /// The transform as a mathematical function: the value produced for `v`,
    /// or the error reported for it.  An implementation that does not give
    /// this spec is treated as failing with an empty message.
    open spec fn result(&self, v: ValueRepr) -> Result<ValueRepr, ErrorRepr> {
        Err(ErrorRepr::Evaluation(Seq::empty()))
    }

    /// Applies the transform to one value.
    fn apply(&self, v: &Value) -> (r: Result<Value, RuleEngineError>)
        ensures
            match r {
                Ok(out) => self.result(v@) == Ok::<ValueRepr, ErrorRepr>(out@),
                Err(e) => self.result(v@) == Err::<ValueRepr, ErrorRepr>(e@),
            },
    ;
}

/// The set of transforms an engine carries: a name-keyed lookup.  Built by
/// [`NoFunctions`] and [`Registered`]; the engine's contracts are stated over
/// `spec_has` and `spec_result`.
pub trait FunctionRegistry {
    /// Whether a transform is registered under `name`.
    spec fn spec_has(&self, name: Seq<char>) -> bool;

    /// What the transform registered under `name` returns for `v`.
    spec fn spec_result(&self, name: Seq<char>, v: ValueRepr) -> Result<ValueRepr, ErrorRepr>;

    /// Invokes the transform registered under `name`, if any.
    fn call(&self, name: &str, v: &Value) -> (r: Option<Result<Value, RuleEngineError>>)
        ensures
            match r {
                None => !self.spec_has(name@),
                Some(out) => self.spec_has(name@) && (match out {
                    Ok(w) => self.spec_result(name@, v@) == Ok::<ValueRepr, ErrorRepr>(w@),
                    Err(e) => self.spec_result(name@, v@) == Err::<ValueRepr, ErrorRepr>(e@),
                }),
            },
    ;
}

/// The empty registry: no name is registered.
pub struct NoFunctions;

impl FunctionRegistry for NoFunctions {
    open spec fn spec_has(&self, name: Seq<char>) -> bool {
        false
    }

    open spec fn spec_result(&self, name: Seq<char>, v: ValueRepr) -> Result<ValueRepr, ErrorRepr> {
        Err(ErrorRepr::Evaluation(Seq::empty()))
    }

    fn call(&self, name: &str, v: &Value) -> (r: Option<Result<Value, RuleEngineError>>) {
        None
    }
}

/// A registry with one more transform in front of `rest`.  The front entry
/// shadows `rest`, so registering a name a second time overwrites the first
/// registration.
pub struct Registered<F: CustomFunction, R: FunctionRegistry> {
    pub name: String,
    pub func: F,
    pub rest: R,
}

impl<F: CustomFunction, R: FunctionRegistry> FunctionRegistry for Registered<F, R> {
    open spec fn spec_has(&self, name: Seq<char>) -> bool {
        name == self.name@ || self.rest.spec_has(name)
    }

    open spec fn spec_result(&self, name: Seq<char>, v: ValueRepr) -> Result<ValueRepr, ErrorRepr> {
        if name == self.name@ {
            self.func.result(v)
        } else {
            self.rest.spec_result(name, v)
        }
    }

    fn call(&self, name: &str, v: &Value) -> (r: Option<Result<Value, RuleEngineError>>) {
        if crate::text::str_eq(name, self.name.as_str()) {
            Some(self.func.apply(v))
        } else {
            self.rest.call(name, v)
        }
    }
}

} // verus!
