use vstd::prelude::*;

verus! {

/// Everything this crate can fail with: a rule-set document that did not
/// parse, a failure while evaluating a condition or rendering an outcome, and
/// a failure of the configuration layer around the engine.  Each variant
/// carries its message.
#[derive(Debug)]
pub enum RuleEngineError {
    ParseError(String),
    EvaluationError(String),
    ConfigError(String),
}

/// The mathematical shape of a [`RuleEngineError`]: the same variants over
/// `Seq<char>`.
pub enum ErrorRepr {
    Parse(Seq<char>),
    Evaluation(Seq<char>),
    Config(Seq<char>),
}

impl View for RuleEngineError {
    type V = ErrorRepr;

    open spec fn view(&self) -> ErrorRepr {
        match self {
            RuleEngineError::ParseError(m) => ErrorRepr::Parse(m@),
            RuleEngineError::EvaluationError(m) => ErrorRepr::Evaluation(m@),
            RuleEngineError::ConfigError(m) => ErrorRepr::Config(m@),
        }
    }
}

/// The text of [`RuleEngineError::message`].
pub open spec fn spec_message(e: ErrorRepr) -> Seq<char> {
    match e {
        ErrorRepr::Parse(m) => "Parse error: "@ + m,
        ErrorRepr::Evaluation(m) => "Evaluation error: "@ + m,
        ErrorRepr::Config(m) => "Config error: "@ + m,
    }
}

impl RuleEngineError {
    /// The error as one line of text, kind first.
    pub fn message(&self) -> (r: String)
        ensures
            r@ == spec_message(self@),
    {
        match self {
            RuleEngineError::ParseError(m) => crate::text::prefixed("Parse error: ", m.as_str()),
            RuleEngineError::EvaluationError(m) => crate::text::prefixed(
                "Evaluation error: ",
                m.as_str(),
            ),
            RuleEngineError::ConfigError(m) => crate::text::prefixed(
                "Config error: ",
                m.as_str(),
            ),
        }
    }

    /// A verified deep copy (the derived `Clone` is opaque to the verifier).
    pub fn duplicate(&self) -> (r: RuleEngineError)
        ensures
            r@ == self@,
    {
        match self {
            RuleEngineError::ParseError(m) => RuleEngineError::ParseError(m.clone()),
            RuleEngineError::EvaluationError(m) => RuleEngineError::EvaluationError(m.clone()),
            RuleEngineError::ConfigError(m) => RuleEngineError::ConfigError(m.clone()),
        }
    }
}

} // verus!
