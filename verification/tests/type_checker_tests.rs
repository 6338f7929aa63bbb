use minilang::ast::Stmt;
use minilang::error::{CompilerError, ErrorKind};
use minilang::lexer::Lexer;
use minilang::parser::Parser;
use minilang::type_checker::TypeChecker;

fn program(src: &str) -> Vec<Stmt> {
    let tokens = Lexer::new(src).tokenize().unwrap();
    Parser::new(tokens).parse_program().unwrap()
}

fn check(src: &str) -> Result<(), CompilerError> {
    TypeChecker::new().check_program(&program(src))
}

fn message(src: &str) -> String {
    let e = check(src).unwrap_err();
    assert_eq!(e.kind(), ErrorKind::Type);
    e.message().clone()
}

#[test]
fn empty_program_is_well_typed() {
    assert!(check("").is_ok());
}

#[test]
fn assigning_a_bool_to_an_int_is_a_type_error() {
    let e = check("let x = 5; x = true;").unwrap_err();
    assert!(matches!(e, CompilerError::TypeError(_)));
    assert_eq!(e.message(), "Type mismatch in assignment to x");
    assert_eq!(e.render(), "Type error: Type mismatch in assignment to x");
}

#[test]
fn let_may_rebind_a_name_to_another_type() {
    assert!(check("let x = 5; let x = true; x = false;").is_ok());
}

#[test]
fn assignment_needs_a_declaration() {
    assert_eq!(message("x = 1;"), "Undeclared variable: x");
}

#[test]
fn variables_must_be_declared_before_use() {
    assert_eq!(message("let y = x + 1;"), "Undeclared variable: x");
    assert_eq!(message("x;"), "Undeclared variable: x");
}

#[test]
fn conditions_must_be_boolean() {
    assert_eq!(message("if (1) { }"), "Condition in 'if' must be a boolean");
    assert_eq!(message("while (1) { }"), "Condition in loop must be a boolean");
    assert_eq!(message("do { } while (0);"), "Condition in loop must be a boolean");
    assert!(check("if (1 < 2) { } while (false) { } do { } while (true == false);").is_ok());
}

#[test]
fn arithmetic_needs_integers() {
    assert_eq!(message("let x = 1 + true;"), "Operands must be integers");
    assert_eq!(message("let x = true * false;"), "Operands must be integers");
    assert!(check("let x = 1 + 2 * 3 - 4 / 5;").is_ok());
}

#[test]
fn comparisons_need_operands_of_one_type() {
    assert_eq!(message("let x = 1 == true;"), "Operands must be of the same type");
    assert_eq!(message("let x = true < 1;"), "Operands must be of the same type");
    assert!(check("let a = true == false; let b = 1 < 2; let c = true > false;").is_ok());
}

#[test]
fn for_loop_types() {
    assert!(check("let i = 0; for (i = 0; i < 5; i + 1) { }").is_ok());
    assert_eq!(message("let i = 0; for (i = true; i < 5; i + 1) { }"), "Invalid types in 'for' loop");
    assert_eq!(message("let i = 0; for (i = 0; i; i + 1) { }"), "Invalid types in 'for' loop");
    assert_eq!(message("let i = 0; for (i = 0; i < 5; i < 1) { }"), "Invalid types in 'for' loop");
}

#[test]
fn for_condition_is_checked_before_the_variable_is_registered() {
    assert_eq!(message("for (i = 0; i < 5; i + 1) { }"), "Undeclared variable: i");
    assert!(check("for (i = 0; true; 1) { i = i + 1; }").is_ok());
}

#[test]
fn for_registers_its_variable_as_an_integer() {
    assert_eq!(
        message("let i = true; for (i = 0; true; 1) { } i = false;"),
        "Type mismatch in assignment to i"
    );
}

#[test]
fn functions_take_and_return_integers() {
    assert!(check("fn add(a, b) { return a + b; } let z = add(1, 2); z = 3;").is_ok());
    assert_eq!(message("fn f(a) { return a; } let z = f(true);"), "Argument type mismatch");
    assert_eq!(
        message("fn f(a) { return a; } let z = f(1); z = true;"),
        "Type mismatch in assignment to z"
    );
}

#[test]
fn return_type_is_not_held_against_the_declaration() {
    assert!(check("fn f() { return true; } let z = f() + 1;").is_ok());
}

#[test]
fn call_arity_and_unknown_functions() {
    assert_eq!(
        message("fn f(a) { return a; } let z = f(1, 2);"),
        "Incorrect number of arguments in call to f"
    );
    assert_eq!(message("let z = g(1);"), "Undefined function: g");
}

#[test]
fn a_function_may_call_itself() {
    assert!(check("fn f(n) { return f(n - 1); }").is_ok());
}

#[test]
fn parameters_stay_declared_after_the_function() {
    assert!(check("fn f(a) { return a; } a = 2;").is_ok());
}

#[test]
fn the_first_error_is_reported() {
    assert_eq!(message("let x = y; let z = 1 + true;"), "Undeclared variable: y");
    assert_eq!(message("let z = f(q);"), "Undefined function: f");
}

#[test]
fn checker_keeps_its_state_between_programs() {
    let mut checker = TypeChecker::new();
    assert!(checker.check_program(&program("let x = 1;")).is_ok());
    assert!(checker.check_program(&program("x = 2;")).is_ok());
    assert!(checker.check_program(&program("x = true;")).is_err());
}

#[test]
fn a_type_error_keeps_what_was_recorded_before_it() {
    let mut checker = TypeChecker::new();
    assert!(checker.check_program(&program("let x = 1; y = 2; let z = 3;")).is_err());
    assert!(checker.check_program(&program("x = 5;")).is_ok());
    assert!(checker.check_program(&program("z = 5;")).is_err());
}
