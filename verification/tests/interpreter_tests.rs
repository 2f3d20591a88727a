use monkey_lang_lib::driver::{run_source, RunOutcome};
use monkey_lang_lib::evaluator::Evaluator;

fn run(src: &str) -> String {
    let mut ev = Evaluator::new();
    match run_source(&mut ev, src) {
        RunOutcome::LexFailure => "Lexer error".to_string(),
        RunOutcome::ParseFailure => "Parser error".to_string(),
        RunOutcome::Value(v) => v.display_string(),
    }
}

#[test]
fn precedence_of_sum_and_product() {
    assert_eq!(run("let x = 5 + 5 * 2; x"), "15");
}

#[test]
fn function_call() {
    assert_eq!(run("let add = fn(a,b){a+b}; add(2,3)"), "5");
}

#[test]
fn closure_captures_environment() {
    assert_eq!(
        run("let a = fn(x){ fn(y){ x + y } }; let add5 = a(5); add5(7)"),
        "12"
    );
}

#[test]
fn if_else_and_missing_alternative() {
    assert_eq!(run("if (1 < 2) { 10 } else { 20 }"), "10");
    assert_eq!(run("if (false) { 10 }"), "null");
}

#[test]
fn return_propagates_from_nested_if() {
    assert_eq!(run("let r = fn(x){ if (x>0){ return x } ; 99 }; r(3)"), "3");
    assert_eq!(run("let r = fn(x){ if (x>0){ return x } ; 99 }; r(-1)"), "99");
}

#[test]
fn builtins_on_strings_and_arrays() {
    assert_eq!(run("len(\"hello\")"), "5");
    assert_eq!(run("head([1,2,3])"), "1");
    assert_eq!(run("tail([1,2,3])"), "[2, 3]");
    assert_eq!(run("cons(0,[1,2])"), "[0, 1, 2]");
}

#[test]
fn hash_index() {
    assert_eq!(run("{\"a\":1,\"b\":2}[\"b\"]"), "2");
    assert_eq!(run("{\"a\":1}[\"z\"]"), "null");
}

#[test]
fn type_mismatch_error() {
    assert_eq!(run("5 + true"), "Error: type mismatch: Integer + Boolean");
}

#[test]
fn unbound_identifier_error() {
    assert_eq!(run("foo"), "Error: identifier not found: foo");
}

#[test]
fn division_by_zero_error() {
    assert_eq!(run("1 / 0"), "Error: division by zero");
}

#[test]
fn error_short_circuits_call_arguments() {
    // The callee is never applied: its effect (a print) does not happen.
    let mut ev = Evaluator::new();
    let r = run_source(
        &mut ev,
        "let f = fn(x){ print(\"ran\"); x }; f(missing)",
    );
    match r {
        RunOutcome::Value(v) => {
            assert_eq!(v.display_string(), "Error: identifier not found: missing");
        }
        _ => panic!("expected a value outcome"),
    }
    assert!(ev.output.is_empty());
}

#[test]
fn error_stops_later_statements() {
    let mut ev = Evaluator::new();
    let r = run_source(&mut ev, "print(\"before\"); missing; print(\"after\")");
    match r {
        RunOutcome::Value(v) => {
            assert_eq!(v.display_string(), "Error: identifier not found: missing");
        }
        _ => panic!("expected a value outcome"),
    }
    assert_eq!(ev.output, vec!["before".to_string()]);
}

#[test]
fn closure_sees_binding_added_after_creation() {
    assert_eq!(
        run("let f = fn(){ later }; let later = 41; f() + 1"),
        "42"
    );
}

#[test]
fn repl_environment_persists_between_runs() {
    let mut ev = Evaluator::new();
    assert!(matches!(
        run_source(&mut ev, "let x = 40;"),
        RunOutcome::Value(_)
    ));
    match run_source(&mut ev, "x + 2") {
        RunOutcome::Value(v) => assert_eq!(v.display_string(), "42"),
        _ => panic!("expected a value outcome"),
    }
}

#[test]
fn print_appends_to_output_log() {
    let mut ev = Evaluator::new();
    let r = run_source(&mut ev, "print(\"hello\"); print(42)");
    match r {
        RunOutcome::Value(v) => assert_eq!(v.display_string(), "null"),
        _ => panic!("expected a value outcome"),
    }
    assert_eq!(ev.output, vec!["hello".to_string(), "42".to_string()]);
}

#[test]
fn empty_program_evaluates_to_null() {
    assert_eq!(run(""), "null");
}

#[test]
fn parser_rejects_bad_let() {
    assert_eq!(run("let = 5"), "Parser error");
}

#[test]
fn parser_rejects_illegal_token() {
    assert_eq!(run("5 @ 5"), "Parser error");
}

#[test]
fn prefix_operators() {
    assert_eq!(run("!true"), "false");
    assert_eq!(run("!null"), "Error: identifier not found: null");
    assert_eq!(run("!0"), "false");
    assert_eq!(run("-5"), "-5");
    assert_eq!(run("+5"), "5");
    assert_eq!(run("-true"), "Error: unknown operator: -Boolean");
    assert_eq!(run("+\"a\""), "Error: unknown operator: +String");
}

#[test]
fn string_operations() {
    assert_eq!(run("\"foo\" + \"bar\""), "foobar");
    assert_eq!(run("\"a\" == \"a\""), "true");
    assert_eq!(run("\"a\" != \"b\""), "true");
    assert_eq!(run("\"a\" < \"b\""), "Error: unknown operator: String < String");
}

#[test]
fn comparison_operators() {
    assert_eq!(run("1 < 2"), "true");
    assert_eq!(run("2 <= 2"), "true");
    assert_eq!(run("3 > 4"), "false");
    assert_eq!(run("4 >= 5"), "false");
    assert_eq!(run("1 == 1"), "true");
    assert_eq!(run("1 != 1"), "false");
    assert_eq!(run("1 == true"), "false");
    assert_eq!(run("1 != \"a\""), "true");
}

#[test]
fn wrapping_arithmetic() {
    assert_eq!(run("9223372036854775807 + 1"), "-9223372036854775808");
    assert_eq!(run("0 - 9223372036854775807 - 1 - 1"), "9223372036854775807");
    assert_eq!(run("7 / 2"), "3");
    assert_eq!(run("0 - 7 / 2"), "-3");
}

#[test]
fn array_indexing() {
    assert_eq!(run("[1,2,3][0]"), "1");
    assert_eq!(run("[1,2,3][2]"), "3");
    assert_eq!(run("[1,2,3][3]"), "null");
    assert_eq!(run("[1,2,3][0-1]"), "null");
    assert_eq!(run("5[0]"), "Error: index operator not supported: Integer");
}

#[test]
fn hash_keys_of_each_primitive_kind() {
    assert_eq!(run("{1: \"one\", true: \"yes\"}[1]"), "one");
    assert_eq!(run("{1: \"one\", true: \"yes\"}[true]"), "yes");
    assert_eq!(run("{\"a\":1}[[1]]"), "Error: unusable as hash key: Array");
}

#[test]
fn hash_duplicate_key_overwrites() {
    assert_eq!(run("{\"a\":1,\"a\":2}[\"a\"]"), "2");
}

#[test]
fn builtin_argument_errors() {
    assert_eq!(run("len(5)"), "Error: invalid arguments for len");
    assert_eq!(run("head([])"), "Error: empty array");
    assert_eq!(run("tail([])"), "Error: empty array");
    assert_eq!(run("cons(1, 2)"), "Error: invalid arguments for cons");
    assert_eq!(run("len(\"a\", \"b\")"), "Error: wrong number of arguments");
}

#[test]
fn call_errors() {
    assert_eq!(run("5(1)"), "Error: not a function: Integer");
    assert_eq!(
        run("let f = fn(a,b){a}; f(1)"),
        "Error: wrong number of arguments"
    );
}

#[test]
fn unknown_operator_on_booleans() {
    assert_eq!(run("true + false"), "Error: unknown operator: Boolean + Boolean");
}

#[test]
fn grouped_expressions() {
    assert_eq!(run("(5 + 5) * 2"), "20");
    assert_eq!(run("-(5 + 5)"), "-10");
}

#[test]
fn len_of_multibyte_string_counts_bytes() {
    assert_eq!(run("len(\"\u{1f496}\")"), "4");
}

#[test]
fn display_forms() {
    assert_eq!(run("fn(x){x}"), "[function]");
    assert_eq!(run("len"), "[built-in function: len]");
    assert_eq!(run("{\"a\": 1}"), "{a: 1}");
    assert_eq!(run("[1, \"two\", [3]]"), "[1, two, [3]]");
}

#[test]
fn recursion_through_own_binding() {
    assert_eq!(
        run("let fact = fn(n){ if (n < 2) { 1 } else { n * fact(n - 1) } }; fact(5)"),
        "120"
    );
}

#[test]
fn runaway_recursion_reports_depth_error() {
    assert_eq!(
        run("let f = fn(){ f() }; f()"),
        "Error: recursion limit reached"
    );
}
