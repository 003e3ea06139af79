use dynarule::{Condition, Outcome, Record, Rule, RuleEngine, RuleEngineError, Value};

fn rule_with(condition: Condition, key: &str, value: Value) -> Rule {
    Rule {
        condition,
        outcome: Outcome {
            key: key.to_string(),
            value,
        },
        ..Default::default()
    }
}

#[test]
fn it_works() {
    assert_eq!(2 + 2, 4);
}

#[test]
fn test_empty_and_is_true() {
    let rule = rule_with(Condition::And(vec![]), "always", Value::Bool(true));
    let engine = RuleEngine::new(vec![rule]);
    let outcomes = engine.evaluate(&Record::new(), &Record::new()).unwrap();
    assert_eq!(outcomes.len(), 1);
    assert_eq!(outcomes[0].key, "always");
}

#[test]
fn test_empty_or_is_false() {
    let rule = rule_with(Condition::Or(vec![]), "never", Value::Bool(true));
    let engine = RuleEngine::new(vec![rule]);
    let outcomes = engine.evaluate(&Record::new(), &Record::new()).unwrap();
    assert_eq!(outcomes.len(), 0);
}

#[test]
fn test_equality_has_no_numeric_coercion() {
    // `=` compares against the literal as a string: the number 25 is not the
    // string "25".
    let rule = rule_with(
        Condition::Simple("age = 25".to_string()),
        "match",
        Value::Bool(true),
    );
    let engine = RuleEngine::new(vec![rule]);
    let mut input = Record::new();
    input.insert("age".to_string(), Value::Number("25".to_string()));
    let outcomes = engine.evaluate(&input, &Record::new()).unwrap();
    assert_eq!(outcomes.len(), 0);

    // The same value as a string is equal.
    let rule = rule_with(
        Condition::Simple("age = 25".to_string()),
        "match",
        Value::Bool(true),
    );
    let engine = RuleEngine::new(vec![rule]);
    let mut input = Record::new();
    input.insert("age".to_string(), Value::Str("25".to_string()));
    let outcomes = engine.evaluate(&input, &Record::new()).unwrap();
    assert_eq!(outcomes.len(), 1);
}

#[test]
fn test_numeric_string_compares_numerically() {
    let rule = rule_with(
        Condition::Simple("age > 18".to_string()),
        "eligible",
        Value::Bool(true),
    );
    let engine = RuleEngine::new(vec![rule]);
    let mut input = Record::new();
    input.insert("age".to_string(), Value::Str("25".to_string()));
    let outcomes = engine.evaluate(&input, &Record::new()).unwrap();
    assert_eq!(outcomes.len(), 1);
}

#[test]
fn test_malformed_condition() {
    let rule = rule_with(
        Condition::Simple("age >".to_string()),
        "broken",
        Value::Bool(true),
    );
    let engine = RuleEngine::new(vec![rule]);
    let mut input = Record::new();
    input.insert("age".to_string(), Value::Number("25".to_string()));
    let result = engine.evaluate(&input, &Record::new());
    assert!(matches!(result, Err(RuleEngineError::EvaluationError(_))));
}

#[test]
fn test_unparseable_literal() {
    let rule = rule_with(
        Condition::Simple("age > abc".to_string()),
        "broken",
        Value::Bool(true),
    );
    let engine = RuleEngine::new(vec![rule]);
    let mut input = Record::new();
    input.insert("age".to_string(), Value::Number("25".to_string()));
    let result = engine.evaluate(&input, &Record::new());
    assert!(matches!(result, Err(RuleEngineError::EvaluationError(_))));
}

#[test]
fn test_unsupported_operator() {
    let rule = rule_with(
        Condition::Simple("age ~ 5".to_string()),
        "broken",
        Value::Bool(true),
    );
    let engine = RuleEngine::new(vec![rule]);
    let mut input = Record::new();
    input.insert("age".to_string(), Value::Number("25".to_string()));
    let result = engine.evaluate(&input, &Record::new());
    assert!(matches!(result, Err(RuleEngineError::EvaluationError(_))));
}

#[test]
fn test_relational_needs_numeric_value() {
    let rule = rule_with(
        Condition::Simple("flag > 0".to_string()),
        "broken",
        Value::Bool(true),
    );
    let engine = RuleEngine::new(vec![rule]);
    let mut input = Record::new();
    input.insert("flag".to_string(), Value::Bool(true));
    let result = engine.evaluate(&input, &Record::new());
    assert!(matches!(result, Err(RuleEngineError::EvaluationError(_))));
}

#[test]
fn test_missing_key_message() {
    let rule = rule_with(
        Condition::Simple("age > 18".to_string()),
        "eligible",
        Value::Bool(true),
    );
    let engine = RuleEngine::new(vec![rule]);
    let err = engine.evaluate(&Record::new(), &Record::new()).unwrap_err();
    assert_eq!(err.message(), "Evaluation error: Key 'age' not found");
}

#[test]
fn test_stable_order_for_equal_priorities() {
    let first = rule_with(
        Condition::Simple("age > 10".to_string()),
        "first",
        Value::Bool(true),
    );
    let second = rule_with(
        Condition::Simple("age > 12".to_string()),
        "second",
        Value::Bool(true),
    );
    let engine = RuleEngine::new(vec![first, second]);
    let mut input = Record::new();
    input.insert("age".to_string(), Value::Number("25".to_string()));
    let outcomes = engine.evaluate(&input, &Record::new()).unwrap();
    assert_eq!(outcomes.len(), 2);
    assert_eq!(outcomes[0].key, "first");
    assert_eq!(outcomes[1].key, "second");
}

#[test]
fn test_input_wins_condition_lookup() {
    // The condition lookup prefers the input record; the context only fills
    // keys the input lacks.
    let rule = rule_with(
        Condition::Simple("time > 12".to_string()),
        "afternoon",
        Value::Bool(true),
    );
    let engine = RuleEngine::new(vec![rule]);
    let mut input = Record::new();
    input.insert("time".to_string(), Value::Number("10".to_string()));
    let mut context = Record::new();
    context.insert("time".to_string(), Value::Number("14".to_string()));
    let outcomes = engine.evaluate(&input, &context).unwrap();
    assert_eq!(outcomes.len(), 0);
}

#[test]
fn test_record_insert_overwrites() {
    let mut record = Record::new();
    record.insert("k".to_string(), Value::Number("1".to_string()));
    record.insert("k".to_string(), Value::Number("2".to_string()));
    assert_eq!(record.get("k"), Some(&Value::Number("2".to_string())));
    assert_eq!(record.get("missing"), None);
}

#[test]
fn test_rule_default() {
    let rule = Rule::default();
    assert!(matches!(rule.condition, Condition::Simple(ref e) if e.is_empty()));
    assert_eq!(rule.outcome.key, "");
    assert_eq!(rule.outcome.value, Value::Null);
    assert_eq!(rule.priority, 0);
    assert_eq!(dynarule::default_priority(), 0);
}

#[test]
fn test_function_failure_propagates() {
    struct StrLength;

    impl dynarule::CustomFunction for StrLength {
        fn apply(&self, value: &Value) -> Result<Value, RuleEngineError> {
            match value {
                Value::Str(s) => Ok(Value::Number(s.len().to_string())),
                _ => Err(RuleEngineError::EvaluationError("Expected string".to_string())),
            }
        }
    }

    let rule = rule_with(
        Condition::Simple("length(age) > 2".to_string()),
        "valid",
        Value::Bool(true),
    );
    let engine = RuleEngine::new(vec![rule]).with_function("length", StrLength);
    let mut input = Record::new();
    input.insert("age".to_string(), Value::Number("25".to_string()));
    let err = engine.evaluate(&input, &Record::new()).unwrap_err();
    assert_eq!(err.message(), "Evaluation error: Expected string");
}

#[test]
fn test_repeated_evaluation_is_identical() {
    let rules = vec![
        rule_with(
            Condition::Simple("age > 18".to_string()),
            "greeting",
            Value::Str("Hello, {{name}}!".to_string()),
        ),
        rule_with(
            Condition::Simple("age > 10".to_string()),
            "eligible",
            Value::Bool(true),
        ),
    ];
    let engine = RuleEngine::new(rules);
    let mut input = Record::new();
    input.insert("age".to_string(), Value::Number("25".to_string()));
    input.insert("name".to_string(), Value::Str("Alex".to_string()));
    let first = engine.evaluate(&input, &Record::new()).unwrap();
    let second = engine.evaluate(&input, &Record::new()).unwrap();
    assert_eq!(first, second);
    assert_eq!(first.len(), 2);
    assert_eq!(first[0].value, Value::Str("Hello, Alex!".to_string()));
}

#[test]
fn test_structured_value_passes_through() {
    let rule = rule_with(
        Condition::Simple("age > 18".to_string()),
        "tags",
        Value::Structured("[1,2,3]".to_string()),
    );
    let engine = RuleEngine::new(vec![rule]);
    let mut input = Record::new();
    input.insert("age".to_string(), Value::Number("25".to_string()));
    let outcomes = engine.evaluate(&input, &Record::new()).unwrap();
    assert_eq!(outcomes.len(), 1);
    assert_eq!(outcomes[0].value, Value::Structured("[1,2,3]".to_string()));
}

#[test]
fn test_and_short_circuits_before_later_error() {
    // A `false` child ends the conjunction; a fault in a later child is
    // never reached.
    let rule = rule_with(
        Condition::And(vec![
            Condition::Simple("age > 100".to_string()),
            Condition::Simple("missing > 1".to_string()),
        ]),
        "match",
        Value::Bool(true),
    );
    let engine = RuleEngine::new(vec![rule]);
    let mut input = Record::new();
    input.insert("age".to_string(), Value::Number("25".to_string()));
    let outcomes = engine.evaluate(&input, &Record::new()).unwrap();
    assert_eq!(outcomes.len(), 0);
}

#[test]
fn test_and_error_comes_before_later_false() {
    // The first fault in declared order wins, even when a later child would
    // have been false.
    let rule = rule_with(
        Condition::And(vec![
            Condition::Simple("missing > 1".to_string()),
            Condition::Simple("age > 100".to_string()),
        ]),
        "match",
        Value::Bool(true),
    );
    let engine = RuleEngine::new(vec![rule]);
    let mut input = Record::new();
    input.insert("age".to_string(), Value::Number("25".to_string()));
    let result = engine.evaluate(&input, &Record::new());
    assert!(matches!(result, Err(RuleEngineError::EvaluationError(_))));
}

#[test]
fn test_or_short_circuits_before_later_error() {
    let rule = rule_with(
        Condition::Or(vec![
            Condition::Simple("age > 18".to_string()),
            Condition::Simple("missing > 1".to_string()),
        ]),
        "match",
        Value::Bool(true),
    );
    let engine = RuleEngine::new(vec![rule]);
    let mut input = Record::new();
    input.insert("age".to_string(), Value::Number("25".to_string()));
    let outcomes = engine.evaluate(&input, &Record::new()).unwrap();
    assert_eq!(outcomes.len(), 1);
}

#[test]
fn test_or_error_comes_before_later_true() {
    let rule = rule_with(
        Condition::Or(vec![
            Condition::Simple("missing > 1".to_string()),
            Condition::Simple("age > 18".to_string()),
        ]),
        "match",
        Value::Bool(true),
    );
    let engine = RuleEngine::new(vec![rule]);
    let mut input = Record::new();
    input.insert("age".to_string(), Value::Number("25".to_string()));
    let result = engine.evaluate(&input, &Record::new());
    assert!(matches!(result, Err(RuleEngineError::EvaluationError(_))));
}

#[test]
fn test_function_on_context_key() {
    // The argument of a call-form operand falls back to the context record
    // like any other key.
    struct StrLength2;

    impl dynarule::CustomFunction for StrLength2 {
        fn apply(&self, value: &Value) -> Result<Value, RuleEngineError> {
            match value {
                Value::Str(s) => Ok(Value::Number(s.len().to_string())),
                _ => Err(RuleEngineError::EvaluationError("Expected string".to_string())),
            }
        }
    }

    let rule = rule_with(
        Condition::Simple("length(name) > 2".to_string()),
        "valid",
        Value::Bool(true),
    );
    let engine = RuleEngine::new(vec![rule]).with_function("length", StrLength2);
    let mut context = Record::new();
    context.insert("name".to_string(), Value::Str("Haile".to_string()));
    let outcomes = engine.evaluate(&Record::new(), &context).unwrap();
    assert_eq!(outcomes.len(), 1);
}

#[test]
fn test_later_registration_overwrites() {
    struct AlwaysOne;

    impl dynarule::CustomFunction for AlwaysOne {
        fn apply(&self, _value: &Value) -> Result<Value, RuleEngineError> {
            Ok(Value::Number("1".to_string()))
        }
    }

    struct AlwaysNine;

    impl dynarule::CustomFunction for AlwaysNine {
        fn apply(&self, _value: &Value) -> Result<Value, RuleEngineError> {
            Ok(Value::Number("9".to_string()))
        }
    }

    let rule = rule_with(
        Condition::Simple("pick(x) > 5".to_string()),
        "high",
        Value::Bool(true),
    );
    let engine = RuleEngine::new(vec![rule])
        .with_function("pick", AlwaysOne)
        .with_function("pick", AlwaysNine);
    let mut input = Record::new();
    input.insert("x".to_string(), Value::Null);
    let outcomes = engine.evaluate(&input, &Record::new()).unwrap();
    assert_eq!(outcomes.len(), 1);
    assert_eq!(outcomes[0].key, "high");
}

#[test]
fn test_context_overrides_input_in_render() {
    // For rendering, a context value replaces an input value under the same
    // key - the reverse of the condition lookup.
    let rule = rule_with(
        Condition::Simple("age > 18".to_string()),
        "message",
        Value::Str("Hello, {{name}}!".to_string()),
    );
    let engine = RuleEngine::new(vec![rule]);
    let mut input = Record::new();
    input.insert("age".to_string(), Value::Number("25".to_string()));
    input.insert("name".to_string(), Value::Str("Alex".to_string()));
    let mut context = Record::new();
    context.insert("name".to_string(), Value::Str("Haile".to_string()));
    let outcomes = engine.evaluate(&input, &context).unwrap();
    assert_eq!(outcomes.len(), 1);
    assert_eq!(outcomes[0].value, Value::Str("Hello, Haile!".to_string()));
}

#[test]
fn test_unicode_whitespace_separates_tokens() {
    // No-break spaces split tokens just as ASCII spaces do.
    let rule = rule_with(
        Condition::Simple("age\u{00a0}>\u{00a0}18".to_string()),
        "eligible",
        Value::Bool(true),
    );
    let engine = RuleEngine::new(vec![rule]);
    let mut input = Record::new();
    input.insert("age".to_string(), Value::Number("25".to_string()));
    let outcomes = engine.evaluate(&input, &Record::new()).unwrap();
    assert_eq!(outcomes.len(), 1);
}
