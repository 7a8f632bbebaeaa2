use lox::function::Value;
use lox::interpret::{RunOutcome, check_arity, interpret_source};
use lox::resolve::resolve;

fn run(src: &str) -> RunOutcome {
    match interpret_source(src.to_string()) {
        Ok(out) => out,
        Err(es) => panic!("scan or parse failed: {} errors", es.len()),
    }
}

fn run_output(src: &str) -> Vec<String> {
    let out = run(src);
    if let Some(e) = out.error {
        panic!("runtime error: {}", e.message());
    }
    out.output
}

fn run_error(src: &str) -> (String, Vec<String>) {
    let out = run(src);
    match out.error {
        Some(e) => (e.message().clone(), out.output),
        None => panic!("expected a runtime error"),
    }
}

#[test]
fn string_concatenation_round_trip() {
    assert_eq!(run_output("print \"ab\" + \"cd\";"), vec!["abcd"]);
}

#[test]
fn numeric_literal_prints_itself() {
    assert_eq!(run_output("print 42;"), vec!["42"]);
    assert_eq!(run_output("print 3.14;"), vec!["3.14"]);
    assert_eq!(run_output("print 0.5;"), vec!["0.5"]);
    assert_eq!(run_output("print 0;"), vec!["0"]);
}

#[test]
fn arithmetic_is_exact_decimal() {
    assert_eq!(run_output("print 1 + 2;"), vec!["3"]);
    assert_eq!(run_output("print 0.1 + 0.2;"), vec!["0.3"]);
    assert_eq!(run_output("print 1 / 4;"), vec!["0.25"]);
    assert_eq!(run_output("print 10 / 3;"), vec!["3.333333"]);
    assert_eq!(run_output("print 2 * 3.5;"), vec!["7"]);
    assert_eq!(run_output("print 1 - 2;"), vec!["-1"]);
    assert_eq!(run_output("print -(3);"), vec!["-3"]);
}

#[test]
fn comparisons_and_equality() {
    assert_eq!(run_output("print 1 < 2;"), vec!["true"]);
    assert_eq!(run_output("print 2 <= 2;"), vec!["true"]);
    assert_eq!(run_output("print 1 > 2;"), vec!["false"]);
    assert_eq!(run_output("print 1 == 1;"), vec!["true"]);
    assert_eq!(run_output("print 1 != 1;"), vec!["false"]);
    // No coercion between kinds: a number never equals a string.
    assert_eq!(run_output("print 1 == \"1\";"), vec!["false"]);
    assert_eq!(run_output("print nil == nil;"), vec!["true"]);
}

#[test]
fn truthiness_only_nil_and_false_are_falsy() {
    assert_eq!(run_output("if (0) print \"t\"; else print \"f\";"), vec!["t"]);
    assert_eq!(run_output("if (\"\") print \"t\"; else print \"f\";"), vec!["t"]);
    assert_eq!(run_output("if (nil) print \"t\"; else print \"f\";"), vec!["f"]);
    assert_eq!(run_output("if (false) print \"t\"; else print \"f\";"), vec!["f"]);
    assert_eq!(run_output("print !nil;"), vec!["true"]);
    assert_eq!(run_output("print !0;"), vec!["false"]);
}

#[test]
fn logic_operators_short_circuit() {
    assert_eq!(run_output("print false and x;"), vec!["false"]);
    assert_eq!(run_output("print true or x;"), vec!["true"]);
    assert_eq!(run_output("print true and \"v\";"), vec!["v"]);
    assert_eq!(run_output("print false or \"v\";"), vec!["v"]);
}

#[test]
fn shadowing_inner_block_then_outer() {
    assert_eq!(
        run_output("var x = 1; { var x = 2; print x; } print x;"),
        vec!["2", "1"]
    );
}

#[test]
fn break_ends_only_innermost_while() {
    let src = "var i = 0; while (i < 3) { var j = 0; while (true) { break; j = j + 1; } i = i + 1; } print i;";
    assert_eq!(run_output(src), vec!["3"]);
}

#[test]
fn for_loop_counts_with_non_block_body() {
    assert_eq!(
        run_output("for (var i = 0; i < 3; i = i + 1) print i;"),
        vec!["0", "1", "2"]
    );
}

#[test]
fn closure_captures_defining_scope() {
    let src = "var g = nil; { var x = 1; fun f() { print x; } g = f; } g();";
    assert_eq!(run_output(src), vec!["1"]);
}

#[test]
fn arity_mismatch_runs_nothing_of_the_body() {
    let (msg, output) = run_error("fun f(a, b) { print \"body\"; } f(1);");
    assert_eq!(
        msg,
        "invalid number of arguments (1) passed to function which takes 2 params"
    );
    assert_eq!(output.len(), 0);
}

#[test]
fn variadic_native_log_joins_arguments() {
    assert_eq!(run_output("log(1, \"a\");"), vec!["1 a "]);
    assert_eq!(run_output("log();"), vec![""]);
}

#[test]
fn clock_is_monotonically_non_decreasing() {
    assert_eq!(
        run_output("var a = clock(); var b = clock(); print b >= a;"),
        vec!["true"]
    );
    assert_eq!(run_output("print clock() >= 0;"), vec!["true"]);
}

#[test]
fn return_yields_the_call_value() {
    assert_eq!(run_output("fun f() { return 3; } print f();"), vec!["3"]);
    assert_eq!(run_output("fun f() { return; } print f();"), vec!["NIL"]);
    assert_eq!(run_output("fun f() { 1 + 1; } print f();"), vec!["NIL"]);
}

#[test]
fn return_escapes_a_loop_inside_a_function() {
    assert_eq!(
        run_output("fun f() { while (true) { return 7; } } print f();"),
        vec!["7"]
    );
}

#[test]
fn recursion_through_the_declared_name() {
    let src = "fun fib(n) { if (n < 2) return n; return fib(n - 1) + fib(n - 2); } print fib(10);";
    assert_eq!(run_output(src), vec!["55"]);
}

#[test]
fn anonymous_function_expression_is_callable() {
    assert_eq!(
        run_output("var f = fun (x) { return x + 1; }; print f(2);"),
        vec!["3"]
    );
}

#[test]
fn function_values_print_as_placeholders() {
    assert_eq!(run_output("fun f() { } print f;"), vec!["[Function]"]);
    assert_eq!(run_output("print clock;"), vec!["[Native Function]"]);
}

#[test]
fn undefined_variable_read_is_an_error() {
    let (msg, _out) = run_error("print x;");
    assert_eq!(msg, "undefined variable 'x'");
}

#[test]
fn assignment_needs_an_existing_binding() {
    let (msg, _out) = run_error("x = 1;");
    assert_eq!(msg, "undefined variable 'x'");
    assert_eq!(run_output("var x = 1; x = 2; print x;"), vec!["2"]);
}

#[test]
fn division_by_zero_is_an_error() {
    let (msg, _out) = run_error("print 1 / 0;");
    assert_eq!(msg, "division by zero");
}

#[test]
fn calling_a_non_function_is_an_error() {
    let (msg, _out) = run_error("var x = 1; x();");
    assert_eq!(msg, "1 is not callable");
}

#[test]
fn stray_break_is_reported_after_the_run() {
    let (msg, _out) = run_error("break;");
    assert_eq!(msg, "break statement out of loop");
}

#[test]
fn stray_return_is_reported_after_the_run() {
    let (msg, _out) = run_error("return 1;");
    assert_eq!(msg, "return statement out of function");
}

#[test]
fn output_before_an_error_is_kept() {
    let (msg, output) = run_error("print 1; print x;");
    assert_eq!(msg, "undefined variable 'x'");
    assert_eq!(output, vec!["1"]);
}

#[test]
fn oversized_literal_is_an_invalid_number() {
    let (msg, _out) = run_error("print 1000000000000000000000000000000000;");
    assert_eq!(
        msg,
        "invalid number (1000000000000000000000000000000000)"
    );
}

#[test]
fn evaluating_a_line_returns_its_value() {
    match lox::interpret::interpret_line("1 + 2 * 3".to_string()) {
        Ok(out) => match out.value {
            Some(Value::Number(u)) => assert_eq!(u, 7_000_000),
            _ => panic!("expected a number"),
        },
        Err(_) => panic!("expected a value"),
    }
}

#[test]
fn check_arity_exact_and_variadic() {
    let fixed = vec!["a".to_string(), "b".to_string()];
    assert_eq!(check_arity(&fixed, 2), None);
    assert_eq!(check_arity(&fixed, 1), Some(2));
    assert_eq!(check_arity(&fixed, 3), Some(2));
    let variadic = vec!["".to_string()];
    assert_eq!(check_arity(&variadic, 0), None);
    assert_eq!(check_arity(&variadic, 5), None);
    let at_least_one = vec!["a".to_string(), "".to_string()];
    assert_eq!(check_arity(&at_least_one, 0), Some(1));
    assert_eq!(check_arity(&at_least_one, 4), None);
}

fn parse(src: &str) -> lox::ast::Ast {
    let tokens = match lox::scan::scan(src.chars().collect()) {
        Ok(ts) => ts,
        Err(_) => panic!("scan failed"),
    };
    match lox::parse::parse_source(tokens) {
        Some(ast) => ast,
        None => panic!("parse failed"),
    }
}

#[test]
fn resolver_accepts_well_scoped_programs() {
    let src = "var x = 1; { var y = x; print y; } fun f(a) { return a + x; } print f(clock());";
    assert!(matches!(resolve(&parse(src)), Ok(())));
}

#[test]
fn resolver_reports_unbound_names() {
    match resolve(&parse("print x; var x = 1;")) {
        Err(ts) => {
            assert_eq!(ts.len(), 1);
            assert_eq!(ts[0].text(), "x");
        },
        Ok(_) => panic!("expected an unresolved reference"),
    }
}

#[test]
fn resolver_scopes_parameters_to_the_body() {
    assert!(matches!(resolve(&parse("fun f(a) { return a; }")), Ok(())));
    match resolve(&parse("fun f(a) { return a; } print a;")) {
        Err(ts) => assert_eq!(ts[0].text(), "a"),
        Ok(_) => panic!("expected an unresolved reference"),
    }
}

#[test]
fn nested_closures_share_their_captured_frame() {
    let src = "fun counter() { var n = 0; fun tick() { n = n + 1; return n; } return tick; } \
               var c = counter(); print c(); print c(); print c();";
    assert_eq!(run_output(src), vec!["1", "2", "3"]);
}

#[test]
fn operands_evaluate_left_to_right() {
    let src = "fun a() { print \"a\"; return 1; } fun b() { print \"b\"; return 2; } print a() + b();";
    assert_eq!(run_output(src), vec!["a", "b", "3"]);
}

#[test]
fn number_overflow_is_reported() {
    let src = "var big = 999999999999999999999999999999; print big * big;";
    let (msg, _out) = run_error(src);
    assert_eq!(msg, "number overflow");
}
