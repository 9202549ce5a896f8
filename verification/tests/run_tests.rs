//! End-to-end runs of whole programs.

use lof_lang::run_code;
use lof_lang::value::RuntimeValue;

fn lines(out: &[&str]) -> Vec<String> {
    out.iter().map(|s| s.to_string()).collect()
}

#[test]
fn basic_e2e() -> Result<(), ()> {
    match lof_lang::run_expr("1 + 2") {
        Ok(RuntimeValue::Integer(3)) => Ok(()),
        _ => Err(()),
    }
}

#[test]
fn class() {
    let out = run_code(
        "class Counter {\n\
           fn init(start) {\n\
             this.count = start;\n\
           }\n\
           fn bump() {\n\
             this.count = this.count + 1;\n\
           }\n\
         }\n\
         var c = Counter(3);\n\
         c.bump();\n\
         c.bump();\n\
         print c.count;",
    )
    .unwrap();
    assert_eq!(out, lines(&["5"]));
}

#[test]
fn fibonacci() {
    let out = run_code(
        "fn fib(n) {\n\
           if n < 2 { n } else { fib(n - 1) + fib(n - 2) }\n\
         }\n\
         print fib(10);",
    )
    .unwrap();
    assert_eq!(out, lines(&["55"]));
}

#[test]
fn comment() {
    let out = run_code(r#"// This is a comment"#).unwrap();
    assert!(out.is_empty());
}

#[test]
fn shadowing_prints_inner_then_outer() {
    let out = run_code("var a = 1; { var a = 2; print a; }; print a;").unwrap();
    assert_eq!(out, lines(&["2", "1"]));
}

#[test]
fn closure_counter_is_shared_by_reference() {
    let out = run_code(
        "fn make_counter() {\n\
           var count = 0 - 1;\n\
           fn counter() {\n\
             count = count + 1;\n\
             print count;\n\
           }\n\
           counter\n\
         }\n\
         var c = make_counter();\n\
         for i in 0..100 { c(); };",
    )
    .unwrap();
    let expected: Vec<String> = (0..100).map(|i| i.to_string()).collect();
    assert_eq!(out, expected);
}

#[test]
fn for_runs_body_exactly_hundred_times() {
    let out = run_code(
        "var n = 0;\n\
         var s = 0;\n\
         for k in 0..100 {\n\
           n = n + 1;\n\
           s = s + k;\n\
         };\n\
         print n;\n\
         print s;",
    )
    .unwrap();
    assert_eq!(out, lines(&["100", "4950"]));
}

#[test]
fn empty_range_runs_zero_times() {
    let out = run_code("var n = 0; for k in 5..5 { n = n + 1; }; print n;").unwrap();
    assert_eq!(out, lines(&["0"]));
}

#[test]
fn while_loop_counts_down() {
    let out = run_code("var n = 3; while n { print n; n = n - 1; };").unwrap();
    assert_eq!(out, lines(&["3", "2", "1"]));
}

#[test]
fn return_unwinds_to_call_boundary() {
    let out = run_code(
        "fn pick(n) {\n\
           if n > 0 { return 10; };\n\
           20\n\
         }\n\
         print pick(1);\n\
         print pick(0);",
    )
    .unwrap();
    assert_eq!(out, lines(&["10", "20"]));
}

#[test]
fn print_renders_each_tag() {
    let out = run_code("print 42; print true; print \"hi\"; print 1..3; print {};").unwrap();
    assert_eq!(out, lines(&["42", "true", "hi", "1..3", "()"]));
}

#[test]
fn time_builtin_returns_nonnegative_integer() {
    let out = run_code("var t = time(); assert(t >= 0, \"clock\"); print t >= 0;").unwrap();
    assert_eq!(out, lines(&["true"]));
}

#[test]
fn assert_builtin_passes_on_true() {
    assert!(run_code("assert(true, \"fine\");").unwrap().is_empty());
}

#[test]
fn method_found_lazily_on_class() {
    let out = run_code(
        "class Greeter {\n\
           fn hello() {\n\
             print \"hello\";\n\
           }\n\
         }\n\
         var g = Greeter();\n\
         g.hello();\n\
         g.hello();",
    )
    .unwrap();
    assert_eq!(out, lines(&["hello", "hello"]));
}

#[test]
fn fields_set_outside_init_persist() {
    let out = run_code(
        "class Box { }\n\
         var b = Box();\n\
         b.item = 7;\n\
         b.item = b.item + 1;\n\
         print b.item;",
    )
    .unwrap();
    assert_eq!(out, lines(&["8"]));
}

#[test]
fn same_tag_reassignment_is_allowed() {
    let out = run_code(
        "fn f() { print 1; }\n\
         fn g() { print 2; }\n\
         var h = f;\n\
         h = g;\n\
         h();",
    )
    .unwrap();
    assert_eq!(out, lines(&["2"]));
}

#[test]
fn range_rebinding_keeps_its_tag() {
    let out = run_code("var r = 0..1; r = 2..5; var n = 0; for k in r { n = n + 1; }; print n;")
        .unwrap();
    assert_eq!(out, lines(&["3"]));
}
