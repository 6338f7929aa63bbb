use minilang::ast::{BinOp, Stmt};
use minilang::error::{CompilerError, ErrorKind};
use minilang::interpreter::{apply, Interpreter, CALL_COST, DEFAULT_BUDGET};
use minilang::lexer::Lexer;
use minilang::parser::Parser;

fn program(src: &str) -> Vec<Stmt> {
    let tokens = Lexer::new(src).tokenize().unwrap();
    Parser::new(tokens).parse_program().unwrap()
}

fn run(src: &str) -> Interpreter {
    let mut it = Interpreter::new();
    it.interpret(&program(src)).unwrap();
    it
}

fn fail(src: &str) -> String {
    let mut it = Interpreter::new();
    let e = it.interpret(&program(src)).unwrap_err();
    assert_eq!(e.kind(), ErrorKind::Runtime);
    e.message().clone()
}

#[test]
fn subtraction_is_left_associative() {
    assert_eq!(run("let r = 10 - 3 - 2;").value_of("r"), Some(5));
}

#[test]
fn multiplication_before_addition() {
    assert_eq!(run("let r = 2 + 3 * 4;").value_of("r"), Some(14));
}

#[test]
fn unary_minus() {
    assert_eq!(run("let r = -5 + 3;").value_of("r"), Some(-2));
}

#[test]
fn do_while_runs_its_body_once_when_the_condition_is_false() {
    let it = run("let y = 10; do { y = y - 1; } while (y > 100);");
    assert_eq!(it.value_of("y"), Some(9));
}

#[test]
fn for_variable_is_visible_after_the_loop() {
    assert_eq!(run("for (i = 0; i < 5; i + 1) { }").value_of("i"), Some(5));
}

#[test]
fn for_rebinds_its_variable_from_the_step_expression() {
    let it = run("let n = 0; for (i = 1; i < 100; i * 2) { n = n + 1; }");
    assert_eq!(it.value_of("i"), Some(128));
    assert_eq!(it.value_of("n"), Some(7));
}

#[test]
fn calls_do_not_change_the_callers_variables() {
    let it = run("let x = 10; fn f(x) { x = x + 1; return x; } let y = f(x);");
    assert_eq!(it.value_of("y"), Some(11));
    assert_eq!(it.value_of("x"), Some(10));
}

#[test]
fn callee_reads_the_callers_variables_but_its_writes_are_dropped() {
    let it = run("let g = 7; fn f() { g = g + 1; let h = 1; return g; } let r = f();");
    assert_eq!(it.value_of("r"), Some(8));
    assert_eq!(it.value_of("g"), Some(7));
    assert_eq!(it.value_of("h"), None);
}

#[test]
fn functions_declared_in_a_callee_are_dropped() {
    let mut it = Interpreter::new();
    it.interpret(&program("fn f() { fn g() { return 1; } return g(); } let r = f();")).unwrap();
    assert_eq!(it.value_of("r"), Some(1));
    assert!(it.has_function("f"));
    assert!(!it.has_function("g"));
}

#[test]
fn division_by_zero_is_a_runtime_error() {
    let mut it = Interpreter::new();
    let e = it.interpret(&program("let x = 1 / 0;")).unwrap_err();
    assert!(matches!(e, CompilerError::RuntimeError(_)));
    assert_eq!(e.message(), "Division by zero");
    assert_eq!(e.render(), "Runtime error: Division by zero");
    assert_eq!(fail("let z = 0; let x = 5 / z;"), "Division by zero");
}

#[test]
fn division_rounds_towards_zero() {
    let it = run("let a = 7 / 2; let b = (0 - 7) / 2; let c = 7 / (0 - 2); let d = (0 - 7) / (0 - 2); let e = 0 / 5;");
    assert_eq!(it.value_of("a"), Some(3));
    assert_eq!(it.value_of("b"), Some(-3));
    assert_eq!(it.value_of("c"), Some(-3));
    assert_eq!(it.value_of("d"), Some(3));
    assert_eq!(it.value_of("e"), Some(0));
}

#[test]
fn operators_on_values() {
    assert_eq!(apply(BinOp::Add, 2, 3).unwrap(), 5);
    assert_eq!(apply(BinOp::Sub, 2, 3).unwrap(), -1);
    assert_eq!(apply(BinOp::Mul, -4, 3).unwrap(), -12);
    assert_eq!(apply(BinOp::Div, -9, 2).unwrap(), -4);
    assert_eq!(apply(BinOp::Eq, 3, 3).unwrap(), 1);
    assert_eq!(apply(BinOp::Eq, 3, 4).unwrap(), 0);
    assert_eq!(apply(BinOp::Neq, 3, 4).unwrap(), 1);
    assert_eq!(apply(BinOp::Gt, 3, 4).unwrap(), 0);
    assert_eq!(apply(BinOp::Lt, 3, 4).unwrap(), 1);
}

#[test]
fn sums_and_products_wrap() {
    assert_eq!(apply(BinOp::Add, i64::MAX, 1).unwrap(), i64::MIN);
    assert_eq!(apply(BinOp::Sub, i64::MIN, 1).unwrap(), i64::MAX);
    assert_eq!(apply(BinOp::Mul, i64::MAX, 2).unwrap(), -2);
}

#[test]
fn least_value_divided_by_minus_one_is_a_runtime_error() {
    let e = apply(BinOp::Div, i64::MIN, -1).unwrap_err();
    assert_eq!(e.kind(), ErrorKind::Runtime);
    assert_eq!(e.message(), "Division overflow");
    assert_eq!(apply(BinOp::Div, i64::MIN, 1).unwrap(), i64::MIN);
    assert_eq!(apply(BinOp::Div, 5, 0).unwrap_err().message(), "Division by zero");
}

#[test]
fn booleans_are_zero_and_one() {
    let it = run("let t = true; let f = false; let c = 3 > 2; let d = 3 < 2; let e = 1 == 1; let n = 1 != 1;");
    assert_eq!(it.value_of("t"), Some(1));
    assert_eq!(it.value_of("f"), Some(0));
    assert_eq!(it.value_of("c"), Some(1));
    assert_eq!(it.value_of("d"), Some(0));
    assert_eq!(it.value_of("e"), Some(1));
    assert_eq!(it.value_of("n"), Some(0));
}

#[test]
fn canonical_sample() {
    let mut it = Interpreter::new();
    it.interpret(&program("let x = 10 ; let y = 0 ; if (x > 5) { y = 1 ; } else { y = 2 ; }")).unwrap();
    assert_eq!(it.value_of("y"), Some(1));
    it.interpret(&program("while (y < 5) { y = y + 1 ; }")).unwrap();
    assert_eq!(it.value_of("y"), Some(5));
    it.interpret(&program("do { y = y - 1 ; } while (y > 0) ;")).unwrap();
    assert_eq!(it.value_of("y"), Some(0));
    it.interpret(&program("fn add(a, b) { return a + b ; } let z = add(x, y) ;")).unwrap();
    assert_eq!(it.value_of("z"), Some(10));
    assert_eq!(it.value_of("x"), Some(10));
}

#[test]
fn else_branch_runs_when_the_condition_is_zero() {
    assert_eq!(run("let y = 0; if (1 > 5) { y = 1; } else { y = 2; }").value_of("y"), Some(2));
    assert_eq!(run("let y = 0; if (1 > 5) { y = 1; }").value_of("y"), Some(0));
}

#[test]
fn undefined_names_are_runtime_errors() {
    assert_eq!(fail("let x = y;"), "Undefined variable: y");
    assert_eq!(fail("y = 1;"), "Undefined variable: y");
    assert_eq!(fail("let x = f(1);"), "Undefined function: f");
}

#[test]
fn assignment_evaluates_its_expression_before_it_looks_up_the_name() {
    assert_eq!(fail("y = 1 / 0;"), "Division by zero");
}

#[test]
fn argument_count_must_match() {
    assert_eq!(
        fail("fn f(a) { return a; } let x = f(1, 2);"),
        "Incorrect argument count in call to f"
    );
    assert_eq!(fail("fn f(a) { return a; } let x = f();"), "Incorrect argument count in call to f");
}

#[test]
fn a_call_before_its_declaration_has_run_fails() {
    assert_eq!(fail("let x = f(); fn f() { return 1; }"), "Undefined function: f");
}

#[test]
fn a_call_without_return_yields_zero() {
    assert_eq!(run("fn f() { let a = 1; } let r = f();").value_of("r"), Some(0));
}

#[test]
fn return_leaves_nested_blocks_and_loops() {
    let it = run(
        "fn f(n) { let i = 0; while (true) { if (i == n) { return i * 10; } i = i + 1; } return 0 - 1; } let r = f(4);",
    );
    assert_eq!(it.value_of("r"), Some(40));
    let it = run("fn g() { do { return 5; } while (true); } let r = g();");
    assert_eq!(it.value_of("r"), Some(5));
    let it = run("fn h() { for (i = 0; true; i + 1) { return i + 3; } } let r = h();");
    assert_eq!(it.value_of("r"), Some(3));
}

#[test]
fn errors_inside_a_callee_reach_the_caller() {
    assert_eq!(fail("fn f() { return 1 / 0; } let r = f();"), "Division by zero");
    assert_eq!(fail("fn f() { q = 1; return 2; } let r = f();"), "Undefined variable: q");
}

#[test]
fn top_level_return_is_dropped_and_the_program_goes_on() {
    let it = run("let a = 1; return 5; a = 2;");
    assert_eq!(it.value_of("a"), Some(2));
    let it = run("let a = 1; if (true) { return 5; a = 3; } a = a + 1;");
    assert_eq!(it.value_of("a"), Some(2));
}

#[test]
fn recursion() {
    let it = run(
        "fn fact(n) { if (n < 2) { return 1; } return n * fact(n - 1); } let r = fact(10);",
    );
    assert_eq!(it.value_of("r"), Some(3628800));
}

#[test]
fn arguments_are_evaluated_in_the_callers_environment() {
    let it = run("let a = 1; let b = 2; fn f(b, a) { return a * 10 + b; } let r = f(a, b);");
    assert_eq!(it.value_of("r"), Some(21));
}

#[test]
fn redeclaring_a_function_replaces_it() {
    let it = run("fn f() { return 1; } fn f() { return 2; } let r = f();");
    assert_eq!(it.value_of("r"), Some(2));
}

#[test]
fn endless_loop_ends_with_a_runtime_error() {
    let mut it = Interpreter::with_budget(50);
    let e = it.interpret(&program("let n = 0; while (true) { n = n + 1; }")).unwrap_err();
    assert_eq!(e.kind(), ErrorKind::Runtime);
    assert_eq!(e.message(), "Evaluation budget exhausted");
    assert_eq!(it.value_of("n"), Some(50));
}

#[test]
fn endless_recursion_ends_with_a_runtime_error() {
    let mut it = Interpreter::with_budget(10 * CALL_COST);
    let e = it.interpret(&program("fn f(n) { return f(n + 1); } let r = f(0);")).unwrap_err();
    assert_eq!(e.message(), "Evaluation budget exhausted");
    assert_eq!(it.value_of("r"), None);
}

#[test]
fn budget_counts_loop_rounds_and_call_depth() {
    let src = "let n = 0; for (i = 0; i < 3; i + 1) { n = n + i; }";
    let mut it = Interpreter::with_budget(4);
    assert!(it.interpret(&program(src)).is_ok());
    assert_eq!(it.value_of("n"), Some(3));
    let mut it = Interpreter::with_budget(3);
    assert!(it.interpret(&program(src)).is_err());
    let mut it = Interpreter::with_budget(0);
    assert!(it.interpret(&program("let x = 1 + 2;")).is_ok());
    assert!(it.interpret(&program("fn f() { } let y = f();")).is_err());
    let mut it = Interpreter::with_budget(CALL_COST - 1);
    assert!(it.interpret(&program("fn f() { } let y = f();")).is_err());
    let mut it = Interpreter::with_budget(CALL_COST);
    assert!(it.interpret(&program("fn f() { } let y = f();")).is_ok());
    let nested = "fn g() { return 1; } fn f() { return g(); } let y = f();";
    let mut it = Interpreter::with_budget(2 * CALL_COST - 1);
    assert!(it.interpret(&program(nested)).is_err());
    let mut it = Interpreter::with_budget(2 * CALL_COST);
    assert!(it.interpret(&program(nested)).is_ok());
    assert_eq!(it.value_of("y"), Some(1));
}

#[test]
fn default_budget_allows_long_loops() {
    assert_eq!(DEFAULT_BUDGET, 100000);
    assert_eq!(CALL_COST, 500);
    let it = run("let n = 0; while (n < 90000) { n = n + 1; }");
    assert_eq!(it.value_of("n"), Some(90000));
}

#[test]
fn interpreter_runs_without_the_type_checker() {
    let it = run("let x = true + 1;");
    assert_eq!(it.value_of("x"), Some(2));
}

#[test]
fn a_fault_keeps_what_ran_before_it() {
    let mut it = Interpreter::new();
    assert!(it.interpret(&program("let a = 1; let b = 1 / 0; let c = 3;")).is_err());
    assert_eq!(it.value_of("a"), Some(1));
    assert_eq!(it.value_of("b"), None);
    assert_eq!(it.value_of("c"), None);
    it.interpret(&program("a = a + 1;")).unwrap();
    assert_eq!(it.value_of("a"), Some(2));
}

#[test]
fn a_fresh_interpreter_knows_nothing() {
    let it = Interpreter::new();
    assert_eq!(it.value_of("x"), None);
    assert!(!it.has_function("f"));
}

#[test]
fn runaway_recursion_under_the_default_budget_is_reported() {
    let mut it = Interpreter::new();
    let e = it.interpret(&program("fn f(n) { return f(n + 1); } let r = f(0);")).unwrap_err();
    assert_eq!(e.kind(), ErrorKind::Runtime);
    assert_eq!(e.message(), "Evaluation budget exhausted");
}
