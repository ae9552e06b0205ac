use nectar::error::Error;
use nectar::match_expr::{Condition, MatchExpr, Operator, Value};
use nectar::refinery::ConditionValue;
use nectar::trace::Trace;
use std::time::Duration;

#[test]
fn parse_true() {
    assert_eq!(MatchExpr::parse("true").unwrap(), MatchExpr::True);
    assert_eq!(MatchExpr::parse("TRUE").unwrap(), MatchExpr::True);
}

#[test]
fn parse_simple_comparison() {
    let expr = MatchExpr::parse("http.status >= 500").unwrap();
    if let MatchExpr::Condition(cond) = expr {
        assert_eq!(cond.field, "http.status");
        assert_eq!(cond.operator, Operator::Ge);
        assert_eq!(cond.value, Value::Int(500));
    } else {
        panic!("expected Condition");
    }
}

#[test]
fn parse_string_comparison() {
    let expr = MatchExpr::parse("service.name == \"checkout\"").unwrap();
    if let MatchExpr::Condition(cond) = expr {
        assert_eq!(cond.field, "service.name");
        assert_eq!(cond.operator, Operator::Eq);
        assert_eq!(cond.value, Value::String("checkout".to_string()));
    } else {
        panic!("expected Condition");
    }
}

#[test]
fn parse_boolean_comparison() {
    let expr = MatchExpr::parse("error == true").unwrap();
    if let MatchExpr::Condition(cond) = expr {
        assert_eq!(cond.field, "error");
        assert_eq!(cond.value, Value::Bool(true));
    } else {
        panic!("expected Condition");
    }
}

#[test]
fn parse_duration_comparison() {
    let expr = MatchExpr::parse("duration > 5s").unwrap();
    if let MatchExpr::Condition(cond) = expr {
        assert_eq!(cond.field, "duration");
        assert_eq!(cond.operator, Operator::Gt);
        assert_eq!(cond.value, Value::Duration(5000));
    } else {
        panic!("expected Condition");
    }
}

#[test]
fn parse_or_expression() {
    let expr = MatchExpr::parse("http.status >= 500 || error == true").unwrap();
    if let MatchExpr::Or(parts) = expr {
        assert_eq!(parts.len(), 2);
    } else {
        panic!("expected Or");
    }
}

#[test]
fn parse_and_expression() {
    let expr = MatchExpr::parse("status >= 500 && service == \"api\"").unwrap();
    if let MatchExpr::And(parts) = expr {
        assert_eq!(parts.len(), 2);
    } else {
        panic!("expected And");
    }
}

#[test]
fn to_refinery_conditions() {
    let expr = MatchExpr::parse("http.status >= 500").unwrap();
    let conditions = expr.to_refinery_conditions().unwrap();
    assert_eq!(conditions.len(), 1);
    assert_eq!(conditions[0].field, "http.status");
    assert_eq!(conditions[0].operator, ">=");
}

#[test]
fn to_refinery_true_has_no_conditions() {
    let expr = MatchExpr::True;
    let conditions = expr.to_refinery_conditions().unwrap();
    assert!(conditions.is_empty());
}

#[test]
fn and_conditions_flatten() {
    let expr = MatchExpr::parse("status >= 500 && error == true").unwrap();
    let conditions = expr.to_refinery_conditions().unwrap();
    assert_eq!(conditions.len(), 2);
}

#[test]
fn duration_field_renamed() {
    let expr = MatchExpr::parse("duration > 1000ms").unwrap();
    let conditions = expr.to_refinery_conditions().unwrap();
    assert_eq!(conditions[0].field, "duration_ms");
}

fn condition(field: &str, operator: Operator, value: Value) -> MatchExpr {
    MatchExpr::Condition(Condition { field: field.to_string(), operator, value })
}

#[test]
fn strict_greater_than_at_the_boundary() {
    let expr = MatchExpr::parse("duration > 1000ms").unwrap();
    let exactly = Trace::new("a").with_duration(Duration::from_millis(1000));
    let above = Trace::new("b").with_duration(Duration::from_millis(1001));
    let just_above = Trace::new("c").with_duration(Duration::from_nanos(1_000_000_001));
    assert!(!expr.evaluate(&exactly));
    assert!(expr.evaluate(&above));
    assert!(expr.evaluate(&just_above));
}

#[test]
fn whole_expression_is_parsed_exactly() {
    let expr = MatchExpr::parse("  status >= 500 || duration > 2.5s && service == 'api' ").unwrap();
    let expected = MatchExpr::Or(vec![
        condition("status", Operator::Ge, Value::Int(500)),
        MatchExpr::And(vec![
            condition("duration", Operator::Gt, Value::Duration(2500)),
            condition("service", Operator::Eq, Value::String("api".to_string())),
        ]),
    ]);
    assert_eq!(expr, expected);
}

#[test]
fn operators_are_probed_in_order() {
    let cases = vec![
        ("a >= 1", Operator::Ge),
        ("a <= 1", Operator::Le),
        ("a != 1", Operator::Ne),
        ("a == 1", Operator::Eq),
        ("a > 1", Operator::Gt),
        ("a < 1", Operator::Lt),
        ("a = 1", Operator::Eq),
        ("a contains 1", Operator::Contains),
        ("a starts-with 1", Operator::StartsWith),
    ];
    for (text, operator) in cases {
        assert_eq!(
            MatchExpr::parse(text).unwrap(),
            condition("a", operator, Value::Int(1)),
            "{text}"
        );
    }
    // A comparison that stands later in the text wins over a word operator.
    assert_eq!(
        MatchExpr::parse("x contains a=b").unwrap(),
        condition("x contains a", Operator::Eq, Value::String("b".to_string()))
    );
}

#[test]
fn exists_needs_no_value() {
    assert_eq!(
        MatchExpr::parse("user.id exists").unwrap(),
        condition("user.id", Operator::Exists, Value::Bool(true))
    );
    let with = Trace::new("t").with_attribute("user.id", "42");
    let without = Trace::new("t");
    let expr = MatchExpr::parse("user.id exists").unwrap();
    assert!(expr.evaluate(&with));
    assert!(!expr.evaluate(&without));
    assert!(!MatchExpr::parse("status exists").unwrap().evaluate(&without));
    assert!(MatchExpr::parse("status exists").unwrap().evaluate(&without.with_status(200)));
}

#[test]
fn value_literals_are_read_in_order() {
    fn value_of(text: &str) -> Value {
        match MatchExpr::parse(&format!("f == {text}")).unwrap() {
            MatchExpr::Condition(c) => c.value,
            other => panic!("expected a condition, got {other:?}"),
        }
    }
    assert_eq!(value_of("TRUE"), Value::Bool(true));
    assert_eq!(value_of("False"), Value::Bool(false));
    assert_eq!(value_of("100ms"), Value::Duration(100));
    assert_eq!(value_of("5s"), Value::Duration(5000));
    assert_eq!(value_of("1.5m"), Value::Duration(90_000));
    assert_eq!(value_of("0.0005s"), Value::Duration(0));
    assert_eq!(value_of("-3s"), Value::Duration(0));
    assert_eq!(value_of("\"quoted text\""), Value::String("quoted text".to_string()));
    assert_eq!(value_of("'single'"), Value::String("single".to_string()));
    assert_eq!(value_of("42"), Value::Int(42));
    assert_eq!(value_of("-42"), Value::Int(-42));
    assert_eq!(value_of("+7"), Value::Int(7));
    assert_eq!(value_of("9223372036854775807"), Value::Int(i64::MAX));
    assert_eq!(
        value_of("9223372036854775808"),
        Value::String("9223372036854775808".to_string())
    );
    assert_eq!(value_of("9223372036854.775807"), Value::Decimal(i64::MAX));
    assert_eq!(value_of("3.25"), Value::Decimal(3_250_000));
    assert_eq!(value_of("-0.5"), Value::Decimal(-500_000));
    assert_eq!(value_of("checkout"), Value::String("checkout".to_string()));
    assert_eq!(value_of("items"), Value::String("items".to_string()));
    assert_eq!(value_of("\""), Value::String("\"".to_string()));
}

#[test]
fn unparseable_input_names_the_offending_text() {
    let error = MatchExpr::parse("  no operator here  ").unwrap_err();
    assert_eq!(
        error,
        Error::InvalidMatch {
            expr: "no operator here".to_string(),
            reason: "no valid operator found".to_string(),
        }
    );
    assert_eq!(
        error.message(),
        "invalid match expression 'no operator here': no valid operator found"
    );
    // The first part that fails decides.
    let error = MatchExpr::parse("status >= 500 || first || second").unwrap_err();
    assert_eq!(
        error,
        Error::InvalidMatch {
            expr: "first".to_string(),
            reason: "no valid operator found".to_string(),
        }
    );
    assert!(MatchExpr::parse("").is_err());
}

#[test]
fn logical_operators_inside_parentheses_do_not_split() {
    // No split at depth 1, so the whole text is one condition.
    let expr = MatchExpr::parse("(a == 1 || b == 2)").unwrap();
    assert_eq!(
        expr,
        condition("(a", Operator::Eq, Value::String("1 || b == 2)".to_string()))
    );
    // A trailing operator without text behind it does not split.
    assert_eq!(
        MatchExpr::parse("a == 1 || ").unwrap(),
        condition("a", Operator::Eq, Value::String("1 ||".to_string()))
    );
    // An empty part between two operators is parsed, and fails.
    assert_eq!(
        MatchExpr::parse("a == 1 || || b == 2").unwrap_err(),
        Error::InvalidMatch { expr: String::new(), reason: "no valid operator found".to_string() }
    );
    // A single `|` or `&` is no operator.
    assert!(matches!(MatchExpr::parse("a == 1 | b").unwrap(), MatchExpr::Condition(_)));
    // Three in a row: the first two split, the third stays in the next part.
    assert_eq!(
        MatchExpr::parse("a == 1 &&& b == 2").unwrap(),
        MatchExpr::And(vec![
            condition("a", Operator::Eq, Value::Int(1)),
            condition("& b", Operator::Eq, Value::Int(2)),
        ])
    );
}

#[test]
fn evaluation_by_kind_of_operand() {
    let trace = Trace::new("t-1")
        .with_status(503)
        .with_service("checkout")
        .with_endpoint("/api/pay")
        .with_duration(Duration::from_millis(250))
        .with_attribute("region", "eu-west")
        .with_attribute("retries", "3");

    let holds = |text: &str| MatchExpr::parse(text).unwrap().evaluate(&trace);
    assert!(holds("true"));
    assert!(holds("status >= 500"));
    assert!(holds("status == 503"));
    assert!(!holds("status < 503"));
    assert!(holds("status != 200"));
    assert!(holds("status > 502.5"));
    assert!(holds("error == true"));
    assert!(holds("is_error != false"));
    assert!(holds("service == checkout"));
    assert!(holds("service == \"checkout\""));
    assert!(!holds("service == Checkout"));
    assert!(holds("service contains eck"));
    assert!(holds("endpoint starts-with /api"));
    assert!(!holds("endpoint starts-with api"));
    assert!(holds("duration >= 250ms"));
    assert!(holds("duration < 1s"));
    assert!(holds("duration == 250"));
    assert!(holds("region == eu-west"));
    assert!(holds("retries >= 3"));
    assert!(!holds("retries > 3"));
    assert!(!holds("region > 3"));
    assert!(!holds("missing == 1"));
    assert!(!holds("missing != 1"));
    assert!(!holds("status == true"));
    assert!(holds("status >= 500 && service == checkout"));
    assert!(!holds("status >= 500 && service == billing"));
    assert!(holds("status < 500 || service == checkout"));
    assert!(!holds("status < 500 || service == billing"));
}

#[test]
fn empty_and_matches_and_empty_or_does_not() {
    let trace = Trace::new("t");
    assert!(MatchExpr::And(Vec::new()).evaluate(&trace));
    assert!(!MatchExpr::Or(Vec::new()).evaluate(&trace));
}

#[test]
fn or_is_unsupported_when_lowering() {
    let expr = MatchExpr::parse("status >= 500 || error == true").unwrap();
    assert_eq!(
        expr.to_refinery_conditions().unwrap_err(),
        Error::Unsupported(
            "OR expressions not supported in single rule, split into multiple rules".to_string()
        )
    );
    let nested = MatchExpr::And(vec![MatchExpr::True, MatchExpr::Or(Vec::new())]);
    assert!(nested.to_refinery_conditions().is_err());
}

#[test]
fn lowering_maps_operators_and_values() {
    let lowered = |text: &str| {
        let mut conditions = MatchExpr::parse(text).unwrap().to_refinery_conditions().unwrap();
        assert_eq!(conditions.len(), 1);
        conditions.remove(0)
    };
    let c = lowered("a == 1");
    assert_eq!((c.operator.as_str(), c.value), ("=", ConditionValue::Number(1)));
    let c = lowered("a != x");
    assert_eq!((c.operator.as_str(), c.value), ("!=", ConditionValue::String("x".to_string())));
    let c = lowered("a >= 2.5");
    assert_eq!((c.operator.as_str(), c.value), (">=", ConditionValue::Number(3)));
    let c = lowered("a <= -2.5");
    assert_eq!((c.operator.as_str(), c.value), ("<=", ConditionValue::Number(-3)));
    let c = lowered("a < 2.4");
    assert_eq!((c.operator.as_str(), c.value), ("<", ConditionValue::Number(2)));
    let c = lowered("duration > 2s");
    assert_eq!(c.field, "duration_ms");
    assert_eq!((c.operator.as_str(), c.value), (">", ConditionValue::Number(2000)));
    let c = lowered("a contains true");
    assert_eq!((c.operator.as_str(), c.value), ("contains", ConditionValue::Bool(true)));
    let c = lowered("a starts-with b");
    assert_eq!(c.operator, "starts-with");
    let c = lowered("a exists");
    assert_eq!((c.operator.as_str(), c.value), ("exists", ConditionValue::Bool(true)));
}
