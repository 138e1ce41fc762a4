use aprz::evaluation::{
    decide, evaluate, CelValue, EvaluationOutcome, EvaluationStep, Expression, ExpressionList, ExpressionOutcome, Verdict,
};
use aprz::metrics::Timestamp;
use aprz::policy::{policy_variables, PolicyScalar, PolicyValue, PolicyVariables};
use cel_interpreter::objects::Key;
use cel_interpreter::{Context, Value};
use std::collections::HashMap;
use std::sync::Arc;

fn scalar(s: &PolicyScalar) -> Value {
    match s {
        PolicyScalar::UInt(u) => Value::UInt(*u),
        PolicyScalar::Float(t) => Value::Float(t.parse().unwrap()),
        PolicyScalar::Bool(b) => Value::Bool(*b),
        PolicyScalar::Text(t) => Value::String(Arc::new(t.clone())),
        PolicyScalar::Instant(t) => Value::Timestamp(chrono::DateTime::from_timestamp(t.as_seconds(), 0).unwrap().fixed_offset()),
    }
}

fn value(v: &PolicyValue) -> Value {
    match v {
        PolicyValue::Null => Value::Null,
        PolicyValue::Scalar(s) => scalar(s),
        PolicyValue::List(items) => Value::List(Arc::new(items.iter().map(scalar).collect())),
    }
}

fn context(vars: &PolicyVariables) -> Context<'static> {
    let mut c = Context::default();
    for (prefix, fields) in &vars.maps {
        let mut m = HashMap::new();
        for (f, v) in fields {
            m.insert(Key::String(Arc::new(f.clone())), value(v));
        }
        c.add_variable_from_value(prefix.clone(), Value::Map(cel_interpreter::objects::Map { map: Arc::new(m) }));
    }
    for (n, v) in &vars.plain {
        c.add_variable_from_value(n.clone(), value(v));
    }
    let now = chrono::DateTime::from_timestamp(vars.now.as_seconds(), 0).unwrap().fixed_offset();
    c.add_variable_from_value("now", Value::Timestamp(now));
    c
}

/// Runs the expressions the library asks for until it decides.
fn run_policy(
    deny: &[Expression],
    any: &[Expression],
    all: &[Expression],
    metrics: &[(String, PolicyValue)],
    now: Timestamp,
) -> Result<EvaluationOutcome, String> {
    let ctx = context(&policy_variables(metrics.to_vec(), now));
    let mut runs: Vec<Result<CelValue, String>> = Vec::new();
    loop {
        match evaluate(deny, any, all, &runs) {
            EvaluationStep::Done(outcome) => return outcome,
            EvaluationStep::Run(list, k) => {
                let e = match list {
                    ExpressionList::DenyIfAny => &deny[k],
                    ExpressionList::AcceptIfAny => &any[k],
                    ExpressionList::AcceptIfAll => &all[k],
                };
                let program = e.program();
                runs.push(match program.execute(&ctx) {
                    Ok(Value::Bool(b)) => Ok(CelValue::Bool(b)),
                    Ok(other) => Ok(CelValue::Other(format!("{other:?}"))),
                    Err(err) => Err(err.to_string()),
                });
            }
        }
    }
}

fn stars_context(stars: u64) -> Vec<(String, PolicyValue)> {
    vec![
        ("stars".to_string(), PolicyValue::Scalar(PolicyScalar::UInt(stars))),
        ("coverage".to_string(), PolicyValue::Scalar(PolicyScalar::Float("85.5".to_string()))),
    ]
}

fn no_metrics() -> Vec<(String, PolicyValue)> {
    Vec::new()
}

fn expr(name: &str, text: &str) -> Expression {
    Expression::new(name.to_string(), None, text.to_string(), None).unwrap()
}

#[test]
fn test_evaluation_outcome_creation() {
    let outcome = EvaluationOutcome::new(true, vec!["reason 1".to_string(), "reason 2".to_string()]);
    assert!(outcome.accepted);
    assert_eq!(outcome.reasons.len(), 2);

    let denied = EvaluationOutcome::new(false, vec!["reason".to_string()]);
    assert!(!denied.accepted);
    assert_eq!(denied.reasons.len(), 1);
}

#[test]
fn test_not_evaluated_when_no_expressions() {
    let context = no_metrics();
    let outcome = run_policy(&[], &[], &[], &context, Timestamp::epoch()).unwrap();
    assert!(!outcome.accepted);
    assert_eq!(outcome.reasons, vec!["No evaluation expressions defined"]);
}

#[test]
fn test_deny_if_any_expression_evaluation_error() {
    let deny_expr = expr("bad_expr", "undefined_var > 100");
    let result = run_policy(&[deny_expr], &[], &[], &no_metrics(), Timestamp::epoch());
    let _ = result.unwrap_err();
}

#[test]
fn test_accept_if_any_expression_evaluation_error() {
    let accept_expr = expr("bad_expr", "missing_metric > 100");
    let result = run_policy(&[], &[accept_expr], &[], &no_metrics(), Timestamp::epoch());
    let _ = result.unwrap_err();
}

#[test]
fn test_accept_if_all_expression_evaluation_error() {
    let accept_all_expr = expr("bad_expr", "undefined.field");
    let result = run_policy(&[], &[], &[accept_all_expr], &no_metrics(), Timestamp::epoch());
    let _ = result.unwrap_err();
}

#[test]
fn test_deny_if_any_true_no_description() {
    let deny_expr = expr("high_stars", "stars > 100");
    let outcome = run_policy(&[deny_expr], &[], &[], &stars_context(150), Timestamp::epoch()).unwrap();
    assert!(!outcome.accepted);
    assert!(outcome.reasons[0].contains("high_stars: stars > 100"));
}

#[test]
fn test_accept_if_any_true_no_description() {
    let accept_expr = expr("high_stars", "stars > 100");
    let outcome = run_policy(&[], &[accept_expr], &[], &stars_context(150), Timestamp::epoch()).unwrap();
    assert!(outcome.accepted);
    assert!(outcome.reasons[0].contains("high_stars: stars > 100"));
}

#[test]
fn test_accept_if_all_false_no_description() {
    let accept_all_expr = expr("high_stars", "stars > 200");
    let outcome = run_policy(&[], &[], &[accept_all_expr], &stars_context(150), Timestamp::epoch()).unwrap();
    assert!(!outcome.accepted);
    assert!(outcome.reasons[0].contains("high_stars: stars > 200"));
}

#[test]
fn test_mixed_expressions_with_empty_accept_if_all() {
    let deny_expr = expr("d", "stars > 200");
    let accept_expr = expr("a", "stars > 200");
    let outcome = run_policy(&[deny_expr], &[accept_expr], &[], &stars_context(150), Timestamp::epoch()).unwrap();
    assert!(outcome.accepted);
    assert_eq!(outcome.reasons.len(), 0);
}

#[test]
fn test_accept_if_all_multiple_all_true() {
    let expr1 = expr("e1", "stars > 100");
    let expr2 = expr("e2", "coverage > 50.0");
    let outcome = run_policy(&[], &[], &[expr1, expr2], &stars_context(150), Timestamp::epoch()).unwrap();
    assert!(outcome.accepted);
    assert_eq!(outcome.reasons.len(), 2);
}

#[test]
fn test_accept_if_all_first_false() {
    let expr1 = expr("e1", "stars > 200");
    let expr2 = expr("e2", "coverage > 50.0");
    let outcome = run_policy(&[], &[], &[expr1, expr2], &stars_context(150), Timestamp::epoch()).unwrap();
    assert!(!outcome.accepted);
}

#[test]
fn test_accept_if_all_middle_false() {
    let expr1 = expr("e1", "stars > 100");
    let expr2 = expr("e2", "coverage > 90.0");
    let expr3 = expr("e3", "stars < 200");
    let outcome = run_policy(&[], &[], &[expr1, expr2, expr3], &stars_context(150), Timestamp::epoch()).unwrap();
    assert!(!outcome.accepted);
    assert!(outcome.reasons[0].contains("e2"));
}

#[test]
fn test_create_expression() {
    let expr = Expression::new(
        "high_stars".to_string(),
        Some("Checks if repo has many stars".to_string()),
        "stars > 100".to_string(),
        Some(10),
    );
    assert!(expr.is_ok());
    let expr = expr.unwrap();
    assert_eq!(expr.name(), "high_stars");
    assert_eq!(expr.description(), Some("Checks if repo has many stars"));
    assert_eq!(expr.expression(), "stars > 100");
    assert_eq!(expr.points(), Some(10));
}

#[test]
fn test_create_expression_no_description() {
    let expr = Expression::new("simple".to_string(), None, "stars > 100".to_string(), None).unwrap();
    assert_eq!(expr.name(), "simple");
    assert_eq!(expr.description(), None);
}

#[test]
fn test_create_expression_invalid() {
    let expr = Expression::new(
        "bad_expr".to_string(),
        None,
        "(x > 5".to_string(), // Mismatched parentheses
        None,
    );
    let message = expr.err().unwrap();
    assert!(message.starts_with("Could not parse expression 'bad_expr': "));
}

#[test]
fn description_is_the_reason_when_present() {
    let e = Expression::new("n".to_string(), Some("why".to_string()), "stars > 1".to_string(), None).unwrap();
    assert_eq!(e.reason(), "n: why");
    let outcome = run_policy(&[e], &[], &[], &stars_context(5), Timestamp::epoch()).unwrap();
    assert_eq!(outcome.reasons, vec!["n: why"]);
}

#[test]
fn non_boolean_result_is_an_error() {
    let e = expr("stars_value", "stars");
    let message = run_policy(&[], &[e], &[], &stars_context(150), Timestamp::epoch()).err().unwrap();
    assert!(message.starts_with("Expression 'stars_value' did not return a boolean, got '"));
}

#[test]
fn deny_wins_over_accept_and_later_errors_are_ignored() {
    let deny: Vec<Verdict> = vec![
        Verdict { reason: "d1: x".to_string(), result: Ok(false) },
        Verdict { reason: "d2: y".to_string(), result: Ok(true) },
        Verdict { reason: "d3: z".to_string(), result: Err("boom".to_string()) },
    ];
    let any = vec![Verdict { reason: "a: x".to_string(), result: Ok(true) }];
    let outcome = decide(&deny, &any, &[]).unwrap();
    assert!(!outcome.accepted);
    assert_eq!(outcome.reasons, vec!["d2: y"]);
}

#[test]
fn first_error_before_a_decision_fails() {
    let deny = vec![Verdict { reason: "d: x".to_string(), result: Err("bad".to_string()) }];
    let any = vec![Verdict { reason: "a: x".to_string(), result: Ok(true) }];
    assert_eq!(decide(&deny, &any, &[]).err().unwrap(), "bad");
}

#[test]
fn expression_outcome_text() {
    let ok = ExpressionOutcome::new("n".to_string(), "d".to_string(), true);
    assert_eq!(ok.to_text(), "n: d");
    let failed = ExpressionOutcome::new("n".to_string(), "d".to_string(), false);
    assert_eq!(failed.to_text(), "n (failed): d");
}

#[test]
fn test_program_getter() {
    let expr = Expression::new("test".to_string(), None, "x > 5".to_string(), None).unwrap();

    let program = expr.program();
    // Verify it's a valid program by checking it's not null
    assert!(!core::ptr::eq(core::ptr::from_ref::<cel_interpreter::Program>(program), core::ptr::null()));
}

#[test]
fn test_all_getters() {
    let expr = Expression::new("test_name".to_string(), Some("test_desc".to_string()), "a && b".to_string(), None).unwrap();

    assert_eq!(expr.name(), "test_name");
    assert_eq!(expr.description(), Some("test_desc"));
    assert_eq!(expr.expression(), "a && b");
    assert!(!core::ptr::eq(core::ptr::from_ref::<cel_interpreter::Program>(expr.program()), core::ptr::null()));
}

#[test]
fn test_complex_expression() {
    let expr = Expression::new("complex".to_string(), None, "x > 5 && (y < 10 || z == true)".to_string(), None);
    let _ = expr.unwrap();
}

#[test]
fn test_expression_with_functions() {
    let expr = Expression::new("func_test".to_string(), None, "size(mylist) > 0".to_string(), None);
    let _ = expr.unwrap();
}

fn test_now() -> Timestamp {
    Timestamp::from_seconds(1_800_000_000).unwrap()
}

fn uint(name: &str, v: u64) -> (String, PolicyValue) {
    (name.to_string(), PolicyValue::Scalar(PolicyScalar::UInt(v)))
}

fn text(name: &str, v: &str) -> (String, PolicyValue) {
    (name.to_string(), PolicyValue::Scalar(PolicyScalar::Text(v.to_string())))
}

fn null(name: &str) -> (String, PolicyValue) {
    (name.to_string(), PolicyValue::Null)
}

/// Runs one expression through `evaluate` as the only accept-if-all one.
fn eval_expr(source: &str, metrics: &[(String, PolicyValue)]) -> Result<bool, String> {
    let e = Expression::new("test".to_string(), None, source.to_string(), None).unwrap();
    run_policy(&[], &[], &[e], metrics, test_now()).map(|o| o.accepted)
}

#[test]
fn test_basic_comparison() {
    let metrics = stars_context(150);
    assert!(eval_expr("stars > 100", &metrics).unwrap());
    assert!(eval_expr("coverage >= 80.0", &metrics).unwrap());
    assert!(eval_expr("stars > 100 && coverage >= 80.0", &metrics).unwrap());
    assert!(!eval_expr("stars > 200", &metrics).unwrap());
}

#[test]
fn test_null_handling() {
    let metrics = vec![uint("stars", 150), null("missing_value")];
    assert!(eval_expr("stars > 100", &metrics).unwrap());
    assert!(eval_expr("missing_value == null", &metrics).unwrap());
    assert!(eval_expr("missing_value != null ? false : true", &metrics).unwrap());
}

#[test]
fn test_now_variable_available() {
    let metrics = vec![uint("stars", 150)];
    assert!(eval_expr("now != null", &metrics).unwrap());
    assert!(eval_expr("now == now", &metrics).unwrap());
    assert!(eval_expr("stars > 100 && now != null", &metrics).unwrap());
}

#[test]
fn test_now_variable_with_datetime_metric() {
    let past = Timestamp::from_seconds(1_672_531_200).unwrap(); // 2023-01-01T00:00:00Z
    let metrics = vec![("created_at".to_string(), PolicyValue::Scalar(PolicyScalar::Instant(past)))];
    assert!(eval_expr("now > created_at", &metrics).unwrap());
    assert!(eval_expr("created_at < now", &metrics).unwrap());
}

#[test]
fn test_dotted_metric_names() {
    let metrics = vec![uint("usage.downloads", 1000), uint("usage.recent_downloads", 500)];
    assert!(eval_expr("usage.downloads > 900", &metrics).unwrap());
    assert!(eval_expr("usage.recent_downloads == 500", &metrics).unwrap());
    assert!(eval_expr("usage.downloads > usage.recent_downloads", &metrics).unwrap());
}

#[test]
fn test_multiple_dotted_prefixes() {
    let metrics = vec![uint("usage.downloads", 1000), text("metadata.name", "tokio")];
    assert!(eval_expr("usage.downloads > 500", &metrics).unwrap());
    assert!(eval_expr("metadata.name == 'tokio'", &metrics).unwrap());
    assert!(eval_expr("usage.downloads > 500 && metadata.name == 'tokio'", &metrics).unwrap());
}

#[test]
fn test_mixed_flat_and_dotted_names() {
    let metrics = vec![uint("stars", 150), uint("usage.downloads", 1000)];
    assert!(eval_expr("stars > 100", &metrics).unwrap());
    assert!(eval_expr("usage.downloads > 500", &metrics).unwrap());
    assert!(eval_expr("stars > 100 && usage.downloads > 500", &metrics).unwrap());
}

#[test]
fn test_dotted_name_with_null_value() {
    let metrics = vec![null("usage.downloads"), uint("usage.recent_downloads", 500)];
    assert!(eval_expr("usage.downloads == null", &metrics).unwrap());
    assert!(eval_expr("usage.recent_downloads != null", &metrics).unwrap());
}

#[test]
fn test_expression_returns_non_boolean() {
    let metrics = vec![uint("stars", 150)];
    let result = eval_expr("stars", &metrics);
    assert!(result.is_err());
    assert!(result.unwrap_err().contains("did not return a boolean"));
}

#[test]
fn test_expression_returns_string() {
    let metrics = vec![text("metadata.name", "tokio")];
    let result = eval_expr("metadata.name", &metrics);
    let _ = result.unwrap_err();
}

#[test]
fn test_metric_value_list_conversion() {
    let list = PolicyValue::List(vec![PolicyScalar::Text("rust".to_string()), PolicyScalar::Text("async".to_string())]);
    let metrics = vec![("tags".to_string(), list)];
    assert!(eval_expr("tags.size() == 2", &metrics).unwrap());
}

#[test]
fn test_boolean_metric_value() {
    let metrics = vec![("has_tests".to_string(), PolicyValue::Scalar(PolicyScalar::Bool(true)))];
    assert!(eval_expr("has_tests == true", &metrics).unwrap());
    assert!(eval_expr("has_tests", &metrics).unwrap());
}

#[test]
fn plain_metric_wins_over_a_map_of_the_same_name_and_later_fields_win() {
    let metrics = vec![uint("usage.downloads", 1), uint("usage", 7), uint("usage.downloads", 2), uint("x.y", 3), uint("x.y", 4)];
    assert!(eval_expr("usage == 7", &metrics).unwrap());
    assert!(eval_expr("x.y == 4", &metrics).unwrap());
}

#[test]
fn expressions_after_the_deciding_one_do_not_matter() {
    let context = stars_context(10);
    // The second deny expression would fail (unknown variable); the first decides.
    let outcome = run_policy(&[expr("few", "stars < 100"), expr("broken", "missing_metric > 1")], &[], &[], &context, Timestamp::epoch())
        .unwrap();
    assert!(!outcome.accepted);
    assert_eq!(outcome.reasons, vec!["few: stars < 100"]);
    // An accept-if-all expression that does not hold decides before a failing one.
    let outcome =
        run_policy(&[], &[], &[expr("many", "stars > 100"), expr("broken", "missing_metric > 1")], &context, Timestamp::epoch())
            .unwrap();
    assert!(!outcome.accepted);
    assert_eq!(outcome.reasons, vec!["many: stars > 100"]);
}

#[test]
fn evaluation_asks_for_the_expressions_in_order() {
    let deny = vec![expr("d", "stars < 10")];
    let any = vec![expr("a", "stars > 100")];
    let all = vec![expr("l1", "stars > 1"), expr("l2", "stars > 2")];
    assert!(matches!(evaluate(&deny, &any, &all, &[]), EvaluationStep::Run(ExpressionList::DenyIfAny, 0)));
    let runs = vec![Ok(CelValue::Bool(false))];
    assert!(matches!(evaluate(&deny, &any, &all, &runs), EvaluationStep::Run(ExpressionList::AcceptIfAny, 0)));
    let runs = vec![Ok(CelValue::Bool(false)), Ok(CelValue::Bool(false)), Ok(CelValue::Bool(true))];
    assert!(matches!(evaluate(&deny, &any, &all, &runs), EvaluationStep::Run(ExpressionList::AcceptIfAll, 1)));
    let runs = vec![Ok(CelValue::Bool(false)), Ok(CelValue::Bool(false)), Ok(CelValue::Bool(true)), Ok(CelValue::Bool(true))];
    match evaluate(&deny, &any, &all, &runs) {
        EvaluationStep::Done(Ok(outcome)) => {
            assert!(outcome.accepted);
            assert_eq!(outcome.reasons, vec!["l1: stars > 1", "l2: stars > 2"]);
        }
        other => panic!("unexpected step {other:?}"),
    }
}

#[test]
fn failures_name_the_expression() {
    let deny = vec![expr("d", "stars")];
    match evaluate(&deny, &[], &[], &[Ok(CelValue::Other("UInt(5)".to_string()))]) {
        EvaluationStep::Done(Err(m)) => assert_eq!(m, "Expression 'd' did not return a boolean, got 'UInt(5)' instead"),
        other => panic!("unexpected step {other:?}"),
    }
    match evaluate(&deny, &[], &[], &[Err("no such key".to_string())]) {
        EvaluationStep::Done(Err(m)) => assert_eq!(m, "Could not evaluate expression 'd': no such key"),
        other => panic!("unexpected step {other:?}"),
    }
    // A deciding result stops the evaluation: later results are not looked at.
    let deny = vec![expr("d1", "stars < 10"), expr("d2", "stars")];
    match evaluate(&deny, &[], &[], &[Ok(CelValue::Bool(true)), Err("never run".to_string())]) {
        EvaluationStep::Done(Ok(outcome)) => assert_eq!(outcome.reasons, vec!["d1: stars < 10"]),
        other => panic!("unexpected step {other:?}"),
    }
}

#[test]
fn variables_group_dotted_metrics_by_prefix() {
    let metrics = vec![
        ("usage.downloads".to_string(), PolicyValue::Scalar(PolicyScalar::UInt(1))),
        ("stars".to_string(), PolicyValue::Scalar(PolicyScalar::UInt(5))),
        ("meta.name".to_string(), PolicyValue::Null),
        ("usage.recent".to_string(), PolicyValue::Scalar(PolicyScalar::UInt(2))),
    ];
    let vars = policy_variables(metrics, Timestamp::epoch());
    let prefixes: Vec<&str> = vars.maps.iter().map(|(p, _)| p.as_str()).collect();
    assert_eq!(prefixes, vec!["usage", "meta"]);
    let usage: Vec<&str> = vars.maps[0].1.iter().map(|(f, _)| f.as_str()).collect();
    assert_eq!(usage, vec!["downloads", "recent"]);
    assert_eq!(vars.plain.len(), 1);
    assert_eq!(vars.plain[0].0, "stars");
}
