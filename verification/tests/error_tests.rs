//! Every stage's errors: lexical, parse, resolution and runtime.

use lof_lang::parser::ParserError;
use lof_lang::run_code;
use lof_lang::run_expr;
use lof_lang::scanner::ScannerError;
use lof_lang::value::{RuntimeError, RuntimeUnwind};
use lof_lang::LofError;

#[test]
fn self_reference_in_initializer_is_rejected_by_the_resolver() {
    match run_code("{ var a = a; };") {
        Err(LofError::ResolverError(_)) => {},
        other => panic!("expected a resolver rejection, got {:?}", other),
    }
}

#[test]
fn assignment_type_mismatch_is_a_type_error() {
    match run_code("var a = 1; a = \"x\";") {
        Err(LofError::RuntimeError(RuntimeUnwind::Error(RuntimeError::TypeError))) => {},
        other => panic!("expected a type error, got {:?}", other),
    }
}

#[test]
fn unit_binding_accepts_any_type() {
    let out = run_code("var a; a = \"x\"; print a;").unwrap();
    assert_eq!(out, vec!["x".to_string()]);
}

#[test]
fn assertion_failure_carries_its_message() {
    match run_code("assert(false, \"msg\");") {
        Err(LofError::RuntimeError(RuntimeUnwind::Error(RuntimeError::AssertionError(m)))) => {
            assert_eq!(m, "msg");
        },
        other => panic!("expected an assertion error, got {:?}", other),
    }
}

#[test]
fn assert_with_wrong_tags_is_a_type_error() {
    match run_code("assert(1, \"msg\");") {
        Err(LofError::RuntimeError(RuntimeUnwind::Error(RuntimeError::TypeError))) => {},
        other => panic!("expected a type error, got {:?}", other),
    }
}

#[test]
fn undefined_variable_is_fatal() {
    match run_code("print missing;") {
        Err(LofError::RuntimeError(RuntimeUnwind::Error(RuntimeError::UndefinedVariable(n)))) => {
            assert_eq!(n, "missing");
        },
        other => panic!("expected an undefined variable, got {:?}", other),
    }
}

#[test]
fn undefined_field_or_method_fails() {
    match run_code("class Thing { }\nvar t = Thing();\nprint t.missing;") {
        Err(LofError::RuntimeError(RuntimeUnwind::Error(RuntimeError::UndefinedVariable(n)))) => {
            assert_eq!(n, "missing");
        },
        other => panic!("expected an undefined field, got {:?}", other),
    }
}

#[test]
fn division_by_zero_is_reported() {
    match run_expr("1 / 0") {
        Err(LofError::RuntimeError(RuntimeUnwind::Error(RuntimeError::DivisionByZero))) => {},
        other => panic!("expected division by zero, got {:?}", other),
    }
}

#[test]
fn arity_mismatch_is_fatal() {
    match run_code("fn f(a) { a; }\nf();") {
        Err(LofError::RuntimeError(RuntimeUnwind::Error(RuntimeError::TypeError))) => {},
        other => panic!("expected a type error, got {:?}", other),
    }
}

#[test]
fn calling_a_non_callable_is_fatal() {
    match run_code("var x = 1; x();") {
        Err(LofError::RuntimeError(RuntimeUnwind::Error(RuntimeError::TypeError))) => {},
        other => panic!("expected a type error, got {:?}", other),
    }
}

#[test]
fn mixed_tag_arithmetic_is_a_type_error() {
    match run_expr("1 + \"x\"") {
        Err(LofError::RuntimeError(RuntimeUnwind::Error(RuntimeError::TypeError))) => {},
        other => panic!("expected a type error, got {:?}", other),
    }
}

#[test]
fn unterminated_string_is_a_scan_error() {
    match run_code("var s = \"abc") {
        Err(LofError::ScannerError(ScannerError::UnterminatedString)) => {},
        other => panic!("expected an unterminated string, got {:?}", other),
    }
}

#[test]
fn unexpected_character_is_a_scan_error() {
    match run_code("var a = 1 # 2;") {
        Err(LofError::ScannerError(ScannerError::UnexpectedToken)) => {},
        other => panic!("expected an unexpected-token error, got {:?}", other),
    }
}

#[test]
fn fractional_literal_is_malformed_here() {
    match run_code("var f = 1.5;") {
        Err(LofError::ScannerError(ScannerError::MalformedLiteral)) => {},
        other => panic!("expected a malformed literal, got {:?}", other),
    }
}

#[test]
fn overlarge_integer_literal_is_malformed() {
    match run_code("var n = 99999999999999999999;") {
        Err(LofError::ScannerError(ScannerError::MalformedLiteral)) => {},
        other => panic!("expected a malformed literal, got {:?}", other),
    }
}

#[test]
fn missing_terminator_is_a_parse_error() {
    match run_code("print 1") {
        Err(LofError::ParserError(ParserError::MissingTerminator(_))) => {},
        other => panic!("expected a missing terminator, got {:?}", other),
    }
}

#[test]
fn unclosed_grouping_is_a_parse_error() {
    match run_code("print (1 + 2;") {
        Err(LofError::ParserError(ParserError::UnclosedGrouping(_))) => {},
        other => panic!("expected an unclosed grouping, got {:?}", other),
    }
}

#[test]
fn unclosed_block_is_a_parse_error() {
    match run_code("var a = { 1; ") {
        Err(LofError::ParserError(ParserError::UnclosedBlock(_))) => {},
        other => panic!("expected an unclosed block, got {:?}", other),
    }
}

#[test]
fn invalid_assignment_target_is_a_parse_error() {
    match run_code("1 = 2;") {
        Err(LofError::ParserError(ParserError::InvalidAssignmentTarget(_))) => {},
        other => panic!("expected an invalid assignment target, got {:?}", other),
    }
}

#[test]
fn invalid_variable_name_is_a_parse_error() {
    match run_code("var 1 = 2;") {
        Err(LofError::ParserError(ParserError::InvalidVariableName(_))) => {},
        other => panic!("expected an invalid variable name, got {:?}", other),
    }
}

#[test]
fn failing_program_keeps_no_partial_effects_beyond_flushed_output() {
    // the first print runs; the failing statement aborts the run
    match run_code("print 1; print missing;") {
        Err(LofError::RuntimeError(_)) => {},
        other => panic!("expected a runtime error, got {:?}", other),
    }
}
