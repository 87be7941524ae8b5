use stylus::expressions::{calculate, calculate_bool, EvalError, ParseError};
use stylus::metrics::MetricsMap;
use stylus::value::Value;

fn metrics(entries: Vec<(&str, Value)>) -> MetricsMap {
    let mut m = MetricsMap::new();
    for (k, v) in entries {
        m.insert(k.to_string(), v);
    }
    m
}

#[test]
fn integer_comparisons() {
    let m = MetricsMap::new();
    assert!(calculate_bool("1 == 1", &m));
    assert!(!calculate_bool("1 == 2", &m));
    assert!(calculate_bool("1 != 2", &m));
    assert!(calculate_bool("3 > 2", &m));
    assert!(calculate_bool("2 >= 2", &m));
    assert!(calculate_bool("1 < 2", &m));
    assert!(calculate_bool("2 <= 2", &m));
    assert!(!calculate_bool("2 < 2", &m));
}

#[test]
fn string_comparisons() {
    let m = MetricsMap::new();
    assert!(calculate_bool("\"abc\" == \"abc\"", &m));
    assert!(calculate_bool("\"abc\" != \"abd\"", &m));
    assert!(calculate_bool("\"abc\" < \"abd\"", &m));
    assert!(calculate_bool("\"abd\" > \"abc\"", &m));
    assert!(calculate_bool("\"ab\" < \"abc\"", &m));
    assert!(calculate_bool("'a' == 'a'", &m));
}

#[test]
fn identifiers_resolve_against_metrics() {
    let m = metrics(vec![("lost", Value::Int(2)), ("count", Value::Int(2))]);
    assert!(calculate_bool("lost == count", &m));
    assert!(!calculate_bool("lost < count", &m));
    match calculate("lost", &m) {
        Ok(Ok(Value::Int(v))) => assert_eq!(v, 2),
        other => panic!("unexpected result: {:?}", other),
    }
}

#[test]
fn unknown_metric_is_an_evaluation_error() {
    let m = MetricsMap::new();
    assert_eq!(
        calculate("nosuchmetric", &m),
        Ok(Err(EvalError::UnknownMetric))
    );
    assert!(!calculate_bool("nosuchmetric", &m));
}

#[test]
fn cross_type_comparison_is_a_type_mismatch() {
    let m = metrics(vec![("name", Value::Str("x".to_string()))]);
    assert_eq!(
        calculate("name == 1", &m),
        Ok(Err(EvalError::TypeMismatch))
    );
    assert!(!calculate_bool("name == 1", &m));
}

#[test]
fn parse_errors_are_distinguished() {
    let m = MetricsMap::new();
    assert_eq!(
        calculate("\"unterminated", &m),
        Err(ParseError::UnterminatedString)
    );
    assert_eq!(calculate("1 + 2", &m), Err(ParseError::UnexpectedChar));
    assert_eq!(calculate("1 =", &m), Err(ParseError::UnexpectedChar));
    assert_eq!(calculate("(1", &m), Err(ParseError::UnexpectedToken));
    assert_eq!(calculate("", &m), Err(ParseError::UnexpectedEnd));
    assert_eq!(calculate("1 2", &m), Err(ParseError::TrailingInput));
    assert_eq!(
        calculate("99999999999999999999", &m),
        Err(ParseError::NumberTooLarge)
    );
    assert!(!calculate_bool("1 + 2", &m));
}

#[test]
fn boolean_coercion() {
    let m = metrics(vec![
        ("zero", Value::Int(0)),
        ("seven", Value::Int(7)),
        ("empty", Value::Str("".to_string())),
        ("word_false", Value::Str("FALSE".to_string())),
        ("word_zero", Value::Str("0".to_string())),
        ("word_yes", Value::Str("yes".to_string())),
        ("yes", Value::Bool(true)),
        ("no", Value::Bool(false)),
    ]);
    assert!(!calculate_bool("zero", &m));
    assert!(calculate_bool("seven", &m));
    assert!(!calculate_bool("empty", &m));
    assert!(!calculate_bool("word_false", &m));
    assert!(!calculate_bool("word_zero", &m));
    assert!(calculate_bool("word_yes", &m));
    assert!(calculate_bool("yes", &m));
    assert!(!calculate_bool("no", &m));
}

#[test]
fn and_or_short_circuit_left_to_right() {
    let m = MetricsMap::new();
    // The right operand would fail with an unknown metric, but is never
    // evaluated.
    assert_eq!(
        calculate("false and nosuchmetric", &m),
        Ok(Ok(Value::Bool(false)))
    );
    assert_eq!(
        calculate("true or nosuchmetric", &m),
        Ok(Ok(Value::Bool(true)))
    );
    assert_eq!(
        calculate("true and nosuchmetric", &m),
        Ok(Err(EvalError::UnknownMetric))
    );
}

#[test]
fn operator_precedence() {
    let m = MetricsMap::new();
    // `or` binds loosest, then `and`, then `not`, then comparisons.
    assert!(calculate_bool("true or false and false", &m));
    assert!(!calculate_bool("(true or false) and false", &m));
    assert!(calculate_bool("not 1 == 2", &m));
    assert!(!calculate_bool("not 1 == 1", &m));
    assert!(calculate_bool("not not true", &m));
}

#[test]
fn literal_false_is_always_false() {
    let empty = MetricsMap::new();
    assert!(!calculate_bool("false", &empty));
    let m = metrics(vec![("lost", Value::Int(0))]);
    assert!(!calculate_bool("false", &m));
}

#[test]
fn default_orange_rule_meaning() {
    let rule = "lost > 0 or (lost == 0 and rtt_max > warning_timeout)";
    let slow = metrics(vec![
        ("lost", Value::Int(0)),
        ("rtt_max", Value::Int(2_000_000)),
        ("warning_timeout", Value::Int(1_000_000)),
    ]);
    assert!(calculate_bool(rule, &slow));
    let lossy = metrics(vec![
        ("lost", Value::Int(1)),
        ("rtt_max", Value::Int(10)),
        ("warning_timeout", Value::Int(1_000_000)),
    ]);
    assert!(calculate_bool(rule, &lossy));
    let healthy = metrics(vec![
        ("lost", Value::Int(0)),
        ("rtt_max", Value::Int(10)),
        ("warning_timeout", Value::Int(1_000_000)),
    ]);
    assert!(!calculate_bool(rule, &healthy));
}

#[test]
fn integer_literal_boundaries() {
    let m = MetricsMap::new();
    assert_eq!(
        calculate(
            "9223372036854775807 == 9223372036854775807",
            &m
        ),
        Ok(Ok(Value::Bool(true)))
    );
    assert_eq!(
        calculate("9223372036854775808", &m),
        Err(ParseError::NumberTooLarge)
    );
    assert_eq!(calculate("007 == 7", &m), Ok(Ok(Value::Bool(true))));
}

#[test]
fn whitespace_is_insignificant() {
    let m = metrics(vec![("lost", Value::Int(3)), ("count", Value::Int(3))]);
    assert!(calculate_bool("  lost\t==\ncount  ", &m));
    assert!(calculate_bool("lost==count", &m));
}

#[test]
fn metrics_map_lookup_and_overwrite() {
    let mut m = MetricsMap::new();
    assert!(m.get(&"k".to_string()).is_none());
    m.insert("k".to_string(), Value::Int(1));
    m.insert("k".to_string(), Value::Int(2));
    match m.get(&"k".to_string()) {
        Some(Value::Int(v)) => assert_eq!(*v, 2),
        other => panic!("unexpected lookup result: {:?}", other),
    }
}
