use minilang::ast::{BinOp, Expr, Stmt};
use minilang::error::{CompilerError, ErrorKind};
use minilang::lexer::{Lexer, Token};
use minilang::parser::Parser;
use minilang::token_text::{render_found, render_int, render_nat, render_token};

fn parse(src: &str) -> Result<Vec<Stmt>, CompilerError> {
    let tokens = Lexer::new(src).tokenize().unwrap();
    Parser::new(tokens).parse_program()
}

fn shape(src: &str) -> String {
    format!("{:?}", parse(src).unwrap())
}

fn message(src: &str) -> String {
    let e = parse(src).unwrap_err();
    assert_eq!(e.kind(), ErrorKind::Syntax);
    e.message().clone()
}

fn num(n: i64) -> Box<Expr> {
    Box::new(Expr::Number(n))
}

fn var(name: &str) -> Expr {
    Expr::Variable(name.to_string())
}

#[test]
fn empty_token_list_is_the_empty_program() {
    assert_eq!(parse("").unwrap().len(), 0);
}

#[test]
fn subtraction_groups_to_the_left() {
    let want = vec![Stmt::Expr(Expr::Binary(
        Box::new(Expr::Binary(num(10), BinOp::Sub, num(3))),
        BinOp::Sub,
        num(2),
    ))];
    assert_eq!(shape("10 - 3 - 2;"), format!("{:?}", want));
}

#[test]
fn product_binds_tighter_than_sum() {
    let want = vec![Stmt::Expr(Expr::Binary(
        num(2),
        BinOp::Add,
        Box::new(Expr::Binary(num(3), BinOp::Mul, num(4))),
    ))];
    assert_eq!(shape("2 + 3 * 4;"), format!("{:?}", want));
}

#[test]
fn comparison_binds_tighter_than_equality() {
    let want = vec![Stmt::Expr(Expr::Binary(
        Box::new(Expr::Binary(num(1), BinOp::Lt, num(2))),
        BinOp::Eq,
        Box::new(Expr::Binary(num(3), BinOp::Gt, num(4))),
    ))];
    assert_eq!(shape("1 < 2 == 3 > 4;"), format!("{:?}", want));
}

#[test]
fn unary_minus_is_zero_minus_operand() {
    let want = vec![Stmt::Expr(Expr::Binary(
        Box::new(Expr::Binary(num(0), BinOp::Sub, num(5))),
        BinOp::Add,
        num(3),
    ))];
    assert_eq!(shape("-5 + 3;"), format!("{:?}", want));
}

#[test]
fn parentheses_override_precedence() {
    let want = vec![Stmt::Expr(Expr::Binary(
        Box::new(Expr::Binary(num(2), BinOp::Add, num(3))),
        BinOp::Mul,
        num(4),
    ))];
    assert_eq!(shape("(2 + 3) * 4;"), format!("{:?}", want));
}

#[test]
fn let_and_assign_statements() {
    let want = vec![
        Stmt::Let("x".to_string(), Expr::Bool(true)),
        Stmt::Assign("x".to_string(), Expr::Bool(false)),
    ];
    assert_eq!(shape("let x = true; x = false;"), format!("{:?}", want));
}

#[test]
fn call_with_and_without_arguments() {
    let want = vec![
        Stmt::Let("a".to_string(), Expr::Call("f".to_string(), vec![])),
        Stmt::Let(
            "b".to_string(),
            Expr::Call(
                "g".to_string(),
                vec![Expr::Number(1), Expr::Binary(Box::new(var("a")), BinOp::Add, num(2))],
            ),
        ),
    ];
    assert_eq!(shape("let a = f(); let b = g(1, a + 2);"), format!("{:?}", want));
}

#[test]
fn if_without_else_has_an_empty_else_block() {
    let want = vec![Stmt::If(
        Expr::Binary(Box::new(var("x")), BinOp::Gt, num(5)),
        vec![Stmt::Assign("y".to_string(), Expr::Number(1))],
        vec![],
    )];
    assert_eq!(shape("if (x > 5) { y = 1; }"), format!("{:?}", want));
}

#[test]
fn if_with_else() {
    let want = vec![Stmt::If(
        Expr::Bool(true),
        vec![],
        vec![Stmt::Return(Expr::Number(2))],
    )];
    assert_eq!(shape("if (true) { } else { return 2; }"), format!("{:?}", want));
}

#[test]
fn the_three_loops() {
    let want = vec![
        Stmt::While(Expr::Bool(false), vec![]),
        Stmt::DoWhile(vec![Stmt::Expr(var("x"))], Expr::Bool(false)),
        Stmt::For(
            "i".to_string(),
            Expr::Number(0),
            Expr::Binary(Box::new(var("i")), BinOp::Lt, num(5)),
            Expr::Binary(Box::new(var("i")), BinOp::Add, num(1)),
            vec![],
        ),
    ];
    assert_eq!(
        shape("while (false) { } do { x; } while (false); for (i = 0; i < 5; i + 1) { }"),
        format!("{:?}", want)
    );
}

#[test]
fn for_step_is_a_full_expression_after_the_second_semicolon() {
    let want = vec![Stmt::For(
        "i".to_string(),
        Expr::Number(0),
        Expr::Bool(true),
        Expr::Binary(Box::new(var("i")), BinOp::Mul, num(2)),
        vec![],
    )];
    assert_eq!(shape("for (i = 0; true; i * 2) { }"), format!("{:?}", want));
}

#[test]
fn for_step_is_an_expression_and_no_assignment() {
    assert_eq!(
        message("for (i = 0; i < 5; i = i + 1) { }"),
        "Expected RParen, found Some(Equal)"
    );
}

#[test]
fn function_declarations() {
    let want = vec![
        Stmt::FnDecl("f".to_string(), vec![], vec![]),
        Stmt::FnDecl(
            "add".to_string(),
            vec!["a".to_string(), "b".to_string()],
            vec![Stmt::Return(Expr::Binary(Box::new(var("a")), BinOp::Add, Box::new(var("b"))))],
        ),
    ];
    assert_eq!(shape("fn f() { } fn add(a, b) { return a + b; }"), format!("{:?}", want));
}

#[test]
fn bare_identifier_statement_is_a_variable_reference() {
    let want = vec![Stmt::Expr(var("x"))];
    assert_eq!(shape("x;"), format!("{:?}", want));
}

#[test]
fn statement_led_by_an_identifier_takes_no_operator() {
    assert_eq!(message("x + 1;"), "Expected Semicolon, found Some(Plus)");
    assert_eq!(message("f(1);"), "Expected Semicolon, found Some(LParen)");
}

#[test]
fn expression_statement_not_led_by_an_identifier() {
    let want = vec![Stmt::Expr(Expr::Binary(num(1), BinOp::Add, Box::new(var("x"))))];
    assert_eq!(shape("1 + x;"), format!("{:?}", want));
}

#[test]
fn missing_trailing_semicolon_reports_expected_semicolon() {
    let e = parse("let w = 100").unwrap_err();
    assert_eq!(e.kind(), ErrorKind::Syntax);
    assert!(matches!(e, CompilerError::SyntaxError(_)));
    assert_eq!(e.message(), "Expected Semicolon, found None");
    assert_eq!(e.render(), "Syntax error: Expected Semicolon, found None");
}

#[test]
fn expected_token_messages_show_what_was_found() {
    assert_eq!(message("let x 5;"), "Expected Equal, found Some(Number(5))");
    assert_eq!(message("if x { }"), "Expected LParen, found Some(Ident(\"x\"))");
    assert_eq!(message("while (true) x;"), "Expected LBrace, found Some(Ident(\"x\"))");
    assert_eq!(message("do { } while (true)"), "Expected Semicolon, found None");
    assert_eq!(message("do { } (true);"), "Expected While, found Some(LParen)");
    assert_eq!(message("(1 + 2;"), "Expected RParen, found Some(Semicolon)");
    assert_eq!(message("return 1"), "Expected Semicolon, found None");
}

#[test]
fn missing_names_are_reported() {
    assert_eq!(message("let = 5;"), "Expected identifier after let");
    assert_eq!(message("for (1 = 0; true; 1) { }"), "Expected identifier in for loop");
    assert_eq!(message("fn (a) { }"), "Expected function name");
    assert_eq!(message("fn f(a, ) { }"), "Expected parameter name");
    assert_eq!(message("fn f(1) { }"), "Expected parameter name");
}

#[test]
fn no_expression_where_one_is_needed() {
    assert_eq!(message("let x = ;"), "Unexpected token Some(Semicolon) in expression");
    assert_eq!(message("let x = 1 +"), "Unexpected token None in expression");
    assert_eq!(message("return"), "Unexpected token None in expression");
    assert_eq!(message("}"), "Unexpected token Some(RBrace) in expression");
    assert_eq!(message("- - 1;"), "Unexpected token Some(Minus) in expression");
}

#[test]
fn unclosed_block_fails_at_the_end_of_input() {
    assert_eq!(message("while (true) { x = 1;"), "Unexpected token None in expression");
}

#[test]
fn colon_is_a_token_but_starts_nothing() {
    assert_eq!(message(":"), "Unexpected token Some(Colon) in expression");
}

#[test]
fn brace_less_bodies_are_rejected() {
    assert_eq!(message("if (x > 5) y = 1;"), "Expected LBrace, found Some(Ident(\"y\"))");
}

#[test]
fn canonical_sample_fails_only_at_its_last_line() {
    let head = "let x = 10 ; let y = 0 ;
        if (x > 5) { y = 1 ; } else { y = 2 ; }
        while (y < 5) { y = y + 1 ; }
        do { y = y - 1 ; } while (y > 0) ;
        fn add(a, b) { return a + b ; }
        let z = add(x, y) ;";
    assert_eq!(parse(head).unwrap().len(), 7);
    let whole = format!("{} let w = 100", head);
    assert_eq!(message(&whole), "Expected Semicolon, found None");
}

#[test]
fn numbers_are_written_in_decimal() {
    assert_eq!(render_nat(0), "0");
    assert_eq!(render_nat(9), "9");
    assert_eq!(render_nat(10), "10");
    assert_eq!(render_nat(u64::MAX), "18446744073709551615");
    assert_eq!(render_int(-1), "-1");
    assert_eq!(render_int(i64::MIN), "-9223372036854775808");
    assert_eq!(render_int(i64::MAX), "9223372036854775807");
}

#[test]
fn tokens_are_written_by_tag_and_payload() {
    assert_eq!(render_token(&Token::Semicolon), "Semicolon");
    assert_eq!(render_token(&Token::Number(-42)), "Number(-42)");
    assert_eq!(render_token(&Token::Ident("ab".to_string())), "Ident(\"ab\")");
    assert_eq!(render_found(None), "None");
    assert_eq!(render_found(Some(&Token::Let)), "Some(Let)");
}

#[test]
fn copies_of_trees_are_structurally_equal() {
    let program = parse("fn f(a) { if (a > 0) { return f(a - 1); } return 0; } let x = f(3);")
        .unwrap();
    let copy: Vec<Stmt> = program.iter().map(|s| s.clone()).collect();
    assert_eq!(format!("{:?}", copy), format!("{:?}", program));
    let e = Expr::Call("g".to_string(), vec![var("x"), Expr::Bool(true)]);
    assert_eq!(format!("{:?}", e.deep_copy()), format!("{:?}", e));
}

#[test]
fn a_failed_parse_stops_at_the_refused_token() {
    let tokens = Lexer::new("let x = 1 let y = 2;").tokenize().unwrap();
    let mut parser = Parser::new(tokens);
    let e = parser.parse_program().unwrap_err();
    assert_eq!(e.message(), "Expected Semicolon, found Some(Let)");
    let rest = parser.parse_program().unwrap();
    assert_eq!(
        format!("{:?}", rest),
        format!("{:?}", vec![Stmt::Let("y".to_string(), Expr::Number(2))])
    );
    assert_eq!(parser.parse_program().unwrap().len(), 0);
}
