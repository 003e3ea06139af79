use dynarule::{Condition, Outcome, Record, Rule, RuleEngine, RuleEngineError, Value};

struct StrLength;

impl dynarule::CustomFunction for StrLength {
    fn apply(&self, value: &Value) -> Result<Value, RuleEngineError> {
        match value {
            Value::Str(s) => Ok(Value::Number(s.len().to_string())),
            _ => Err(RuleEngineError::EvaluationError("Expected string".to_string())),
        }
    }
}

#[test]
fn test_basic_evaluation_greater_than() {
    let rule = Rule {
        condition: Condition::Simple("age > 18".to_string()),
        outcome: Outcome {
            key: "eligible".to_string(),
            value: Value::Bool(true),
        },
        ..Default::default()
    };
    let engine = RuleEngine::new(vec![rule]);

    let mut input = Record::new();
    input.insert("age".to_string(), Value::Number("25".to_string()));
    let context = Record::new();

    let outcomes = engine.evaluate(&input, &context).unwrap();
    assert_eq!(outcomes.len(), 1);
    assert_eq!(outcomes[0].key, "eligible");
    assert_eq!(outcomes[0].value, Value::Bool(true));

    let mut input = Record::new();
    input.insert("age".to_string(), Value::Number("15".to_string()));
    let outcomes = engine.evaluate(&input, &context).unwrap();
    assert_eq!(outcomes.len(), 0);
}

#[test]
fn test_basic_evaluation_equals() {
    let rule = Rule {
        condition: Condition::Simple("status = active".to_string()),
        outcome: Outcome {
            key: "access".to_string(),
            value: Value::Str("granted".to_string()),
        },
        ..Default::default()
    };
    let engine = RuleEngine::new(vec![rule]);

    let mut input = Record::new();
    input.insert("status".to_string(), Value::Str("active".to_string()));
    let context = Record::new();

    let outcomes = engine.evaluate(&input, &context).unwrap();
    assert_eq!(outcomes.len(), 1);
    assert_eq!(outcomes[0].key, "access");
    assert_eq!(outcomes[0].value, Value::Str("granted".to_string()));

    let mut input = Record::new();
    input.insert("status".to_string(), Value::Str("inactive".to_string()));
    let outcomes = engine.evaluate(&input, &context).unwrap();
    assert_eq!(outcomes.len(), 0);
}

#[test]
fn test_missing_input_key() {
    let rule = Rule {
        condition: Condition::Simple("age > 18".to_string()),
        outcome: Outcome {
            key: "eligible".to_string(),
            value: Value::Bool(true),
        },
        ..Default::default()
    };
    let engine = RuleEngine::new(vec![rule]);

    let input = Record::new();
    let context = Record::new();

    let result = engine.evaluate(&input, &context);
    assert!(matches!(
        result,
        Err(dynarule::RuleEngineError::EvaluationError(_))
    ));
}

#[test]
fn test_basic_evaluation_less_than() {
    let rule = Rule {
        condition: Condition::Simple("age < 20".to_string()),
        outcome: Outcome {
            key: "youth".to_string(),
            value: Value::Bool(true),
        },
        ..Default::default()
    };
    let engine = RuleEngine::new(vec![rule]);

    let mut input = Record::new();
    input.insert("age".to_string(), Value::Number("15".to_string()));
    let context = Record::new();

    let outcomes = engine.evaluate(&input, &context).unwrap();
    assert_eq!(outcomes.len(), 1);
    assert_eq!(outcomes[0].key, "youth");
    assert_eq!(outcomes[0].value, Value::Bool(true));
}

#[test]
fn test_nested_and_condition() {
    let rule = Rule {
        condition: Condition::And(vec![
            Condition::Simple("age > 18".to_string()),
            Condition::Simple("status = active".to_string()),
        ]),
        outcome: Outcome {
            key: "access".to_string(),
            value: Value::Str("granted".to_string()),
        },
        ..Default::default()
    };
    let engine = RuleEngine::new(vec![rule]);

    let mut input = Record::new();
    input.insert("age".to_string(), Value::Number("25".to_string()));
    input.insert("status".to_string(), Value::Str("active".to_string()));
    let context = Record::new();

    let outcomes = engine.evaluate(&input, &context).unwrap();
    assert_eq!(outcomes.len(), 1);
    assert_eq!(outcomes[0].key, "access");
    assert_eq!(outcomes[0].value, Value::Str("granted".to_string()));

    let mut input = Record::new();
    input.insert("age".to_string(), Value::Number("15".to_string()));
    input.insert("status".to_string(), Value::Str("active".to_string()));
    let outcomes = engine.evaluate(&input, &context).unwrap();
    assert_eq!(outcomes.len(), 0);
}

#[test]
fn test_nested_or_condition() {
    let rule = Rule {
        condition: Condition::Or(vec![
            Condition::Simple("age > 18".to_string()),
            Condition::Simple("status = active".to_string()),
        ]),
        outcome: Outcome {
            key: "eligible".to_string(),
            value: Value::Bool(true),
        },
        ..Default::default()
    };
    let engine = RuleEngine::new(vec![rule]);

    let mut input = Record::new();
    input.insert("age".to_string(), Value::Number("15".to_string()));
    input.insert("status".to_string(), Value::Str("active".to_string()));
    let context = Record::new();

    let outcomes = engine.evaluate(&input, &context).unwrap();
    assert_eq!(outcomes.len(), 1);
    assert_eq!(outcomes[0].key, "eligible");
    assert_eq!(outcomes[0].value, Value::Bool(true));
}

#[test]
fn test_custom_function() {
    let rule = Rule {
        condition: Condition::Simple("length(name) > 2".to_string()),
        outcome: Outcome {
            key: "valid".to_string(),
            value: Value::Bool(true),
        },
        ..Default::default()
    };
    let engine = RuleEngine::new(vec![rule]).with_function("length", StrLength);

    let mut input = Record::new();
    input.insert("name".to_string(), Value::Str("Haile".to_string()));
    let context = Record::new();

    let outcomes = engine.evaluate(&input, &context).unwrap();
    assert_eq!(outcomes.len(), 1);
    assert_eq!(outcomes[0].key, "valid");
    assert_eq!(outcomes[0].value, Value::Bool(true));

    let mut input = Record::new();
    input.insert("name".to_string(), Value::Str("Al".to_string()));
    let outcomes = engine.evaluate(&input, &context).unwrap();
    assert_eq!(outcomes.len(), 0);
}

#[test]
fn test_unknown_function() {
    let rule = Rule {
        condition: Condition::Simple("unknown(name) > 5".to_string()),
        outcome: Outcome {
            key: "valid".to_string(),
            value: Value::Bool(true),
        },
        ..Default::default()
    };
    let engine = RuleEngine::new(vec![rule]);

    let mut input = Record::new();
    input.insert("name".to_string(), Value::Str("Haile".to_string()));
    let context = Record::new();

    let result = engine.evaluate(&input, &context);
    assert!(matches!(result, Err(RuleEngineError::EvaluationError(_))));
}

#[test]
fn test_rule_priority() {
    let low_priority_rule = Rule {
        condition: Condition::Simple("age > 10".to_string()),
        outcome: Outcome {
            key: "access".to_string(),
            value: Value::Str("low".to_string()),
        },
        priority: 1,
    };
    let high_priority_rule = Rule {
        condition: Condition::Simple("age > 18".to_string()),
        outcome: Outcome {
            key: "access".to_string(),
            value: Value::Str("high".to_string()),
        },
        priority: 10,
    };
    let engine = RuleEngine::new(vec![low_priority_rule, high_priority_rule])
        .with_stop_on_first_match(true);

    let mut input = Record::new();
    input.insert("age".to_string(), Value::Number("25".to_string()));
    let context = Record::new();

    let outcomes = engine.evaluate(&input, &context).unwrap();
    assert_eq!(outcomes.len(), 1);
    assert_eq!(outcomes[0].value, Value::Str("high".to_string()));
}

#[test]
fn test_no_stop_on_first_match() {
    let low_priority_rule = Rule {
        condition: Condition::Simple("age > 10".to_string()),
        outcome: Outcome {
            key: "access".to_string(),
            value: Value::Str("low".to_string()),
        },
        priority: 1,
    };
    let high_priority_rule = Rule {
        condition: Condition::Simple("age > 18".to_string()),
        outcome: Outcome {
            key: "access".to_string(),
            value: Value::Str("high".to_string()),
        },
        priority: 10,
    };
    let engine = RuleEngine::new(vec![high_priority_rule, low_priority_rule]);

    let mut input = Record::new();
    input.insert("age".to_string(), Value::Number("25".to_string()));
    let context = Record::new();

    let outcomes = engine.evaluate(&input, &context).unwrap();
    assert_eq!(outcomes.len(), 2);
    assert_eq!(outcomes[0].value, Value::Str("high".to_string()));
    assert_eq!(outcomes[1].value, Value::Str("low".to_string()));
}

#[test]
fn test_templated_outcome() {
    let rule = Rule {
        condition: Condition::Simple("age > 18".to_string()),
        outcome: Outcome {
            key: "message".to_string(),
            value: Value::Str("Hello, {{name}}!".to_string()),
        },
        ..Default::default()
    };
    let engine = RuleEngine::new(vec![rule]);

    let mut input = Record::new();
    input.insert("age".to_string(), Value::Number("25".to_string()));
    input.insert("name".to_string(), Value::Str("Alex".to_string()));
    let context = Record::new();
    let outcomes = engine.evaluate(&input, &context).unwrap();
    assert_eq!(outcomes.len(), 1);
    assert_eq!(outcomes[0].key, "message");
    assert_eq!(outcomes[0].value, Value::Str("Hello, Alex!".to_string()));
}

#[test]
fn test_missing_template_key() {
    let rule = Rule {
        condition: Condition::Simple("age > 18".to_string()),
        outcome: Outcome {
            key: "message".to_string(),
            value: Value::Str("Hello, {{unknown}}!".to_string()),
        },
        ..Default::default()
    };
    let engine = RuleEngine::new(vec![rule]);

    let mut input = Record::new();
    input.insert("age".to_string(), Value::Number("25".to_string()));
    let context = Record::new();
    let result = engine.evaluate(&input, &context);
    assert!(matches!(result, Err(RuleEngineError::EvaluationError(_))));
}

#[test]
fn test_contextual_data() {
    let rule = Rule {
        condition: Condition::Simple("time > 12".to_string()),
        outcome: Outcome {
            key: "message".to_string(),
            value: Value::Str("Afternoon, {{name}}!".to_string()),
        },
        ..Default::default()
    };
    let engine = RuleEngine::new(vec![rule]);

    let mut input = Record::new();
    input.insert("name".to_string(), Value::Str("Haile".to_string()));
    let mut context = Record::new();
    context.insert("time".to_string(), Value::Number("14".to_string()));
    let outcomes = engine.evaluate(&input, &context).unwrap();
    assert_eq!(outcomes.len(), 1);
    assert_eq!(outcomes[0].key, "message");
    assert_eq!(outcomes[0].value, Value::Str("Afternoon, Haile!".to_string()));
}
