//! Single-expression evaluation: arithmetic, strings, logic, blocks.

use lof_lang::run_expr;
use lof_lang::value::RuntimeValue;

fn int_of(source: &str) -> i64 {
    match run_expr(source) {
        Ok(RuntimeValue::Integer(n)) => n,
        other => panic!("expected an integer, got {:?}", other),
    }
}

fn bool_of(source: &str) -> bool {
    match run_expr(source) {
        Ok(RuntimeValue::Bool(b)) => b,
        other => panic!("expected a boolean, got {:?}", other),
    }
}

#[test]
fn integer_arithmetic_is_exact() {
    assert_eq!(int_of("1 + 2"), 3);
    assert_eq!(int_of("10 - 4"), 6);
    assert_eq!(int_of("7 * 6"), 42);
    assert_eq!(int_of("7 / 2"), 3);
    assert_eq!(int_of("1 + 2 * 3"), 7);
    assert_eq!(int_of("(1 + 2) * 3"), 9);
    assert_eq!(int_of("0 - 7 / 2"), -3);
}

#[test]
fn integer_addition_wraps_at_the_type_bound() {
    assert_eq!(int_of("9223372036854775807 + 1"), i64::MIN);
}

#[test]
fn unary_operators() {
    assert_eq!(int_of("-5"), -5);
    assert_eq!(bool_of("!0"), true);
    assert_eq!(bool_of("!1"), false);
    assert_eq!(bool_of("!true"), false);
    assert_eq!(bool_of("!\"\""), true);
}

#[test]
fn comparisons_on_integers() {
    assert!(bool_of("1 < 2"));
    assert!(bool_of("2 <= 2"));
    assert!(bool_of("3 > 2"));
    assert!(bool_of("3 >= 3"));
    assert!(!bool_of("2 < 1"));
}

#[test]
fn equality_per_matching_tag() {
    assert!(bool_of("1 == 1"));
    assert!(bool_of("1 != 2"));
    assert!(bool_of("\"ab\" == \"ab\""));
    assert!(bool_of("\"ab\" != \"cd\""));
    assert!(bool_of("true == true"));
    assert!(bool_of("true != false"));
}

#[test]
fn string_concatenation() {
    match run_expr("\"foo\" + \"bar\"") {
        Ok(RuntimeValue::Str(s)) => assert_eq!(s, "foobar"),
        other => panic!("expected a string, got {:?}", other),
    }
}

#[test]
fn logical_operators_short_circuit_and_keep_the_left_value() {
    // a falsy left operand of `and` comes back unevaluated-right
    assert_eq!(int_of("0 and undefined_name"), 0);
    // a truthy left operand of `or` comes back as itself
    assert_eq!(int_of("5 or undefined_name"), 5);
    // otherwise the right operand's value comes back
    assert_eq!(int_of("1 and 7"), 7);
    assert_eq!(int_of("0 or 9"), 9);
}

#[test]
fn range_values() {
    match run_expr("2..5") {
        Ok(RuntimeValue::Range(2, 5)) => {},
        other => panic!("expected a range, got {:?}", other),
    }
}

#[test]
fn block_without_terminator_yields_last_value() {
    assert_eq!(int_of("{ 1; 2 }"), 2);
}

#[test]
fn block_with_terminated_last_statement_yields_unit() {
    match run_expr("{ 1; 2; }") {
        Ok(RuntimeValue::Unit) => {},
        other => panic!("expected unit, got {:?}", other),
    }
}

#[test]
fn if_is_an_expression() {
    assert_eq!(int_of("if 1 { 2 } else { 3 }"), 2);
    assert_eq!(int_of("if 0 { 2 } else { 3 }"), 3);
    match run_expr("if 0 { 2 }") {
        Ok(RuntimeValue::Unit) => {},
        other => panic!("expected unit, got {:?}", other),
    }
}

#[test]
fn truthiness_of_strings_and_integers() {
    assert_eq!(int_of("if \"x\" { 1 } else { 2 }"), 1);
    assert_eq!(int_of("if \"\" { 1 } else { 2 }"), 2);
    assert_eq!(int_of("if 3 { 1 } else { 2 }"), 1);
}
