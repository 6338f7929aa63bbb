use minilang::error::{CompilerError, ErrorKind};
use minilang::lexer::{Lexer, Token};

fn lex(src: &str) -> Result<Vec<Token>, CompilerError> {
    Lexer::new(src).tokenize()
}

fn ident(name: &str) -> Token {
    Token::Ident(name.to_string())
}

#[test]
fn empty_input_gives_no_tokens() {
    assert_eq!(lex("").unwrap(), vec![]);
    assert_eq!(lex(" \t\r\n ").unwrap(), vec![]);
}

#[test]
fn let_statement_tokens() {
    assert_eq!(
        lex("let x = 10 ;").unwrap(),
        vec![Token::Let, ident("x"), Token::Equal, Token::Number(10), Token::Semicolon]
    );
}

#[test]
fn lexing_twice_gives_the_same_tokens() {
    let src = "fn add(a, b) { return a + b; } let z = add(1, 2);";
    assert_eq!(lex(src).unwrap(), lex(src).unwrap());
}

#[test]
fn numeric_literals_have_their_decimal_value() {
    assert_eq!(lex("0").unwrap(), vec![Token::Number(0)]);
    assert_eq!(lex("007").unwrap(), vec![Token::Number(7)]);
    assert_eq!(lex("1234567890").unwrap(), vec![Token::Number(1234567890)]);
    assert_eq!(lex("9223372036854775807").unwrap(), vec![Token::Number(i64::MAX)]);
}

#[test]
fn oversized_literal_wraps_without_a_failure() {
    assert_eq!(lex("9223372036854775808").unwrap(), vec![Token::Number(i64::MIN)]);
    assert_eq!(lex("18446744073709551616").unwrap(), vec![Token::Number(0)]);
}

#[test]
fn every_keyword_has_its_token() {
    assert_eq!(
        lex("let fn if else while do for return true false").unwrap(),
        vec![
            Token::Let,
            Token::Fn,
            Token::If,
            Token::Else,
            Token::While,
            Token::Do,
            Token::For,
            Token::Return,
            Token::True,
            Token::False,
        ]
    );
}

#[test]
fn words_outside_the_keyword_table_are_identifiers() {
    assert_eq!(
        lex("lets _x x1 If returns do_ a_b9").unwrap(),
        vec![
            ident("lets"),
            ident("_x"),
            ident("x1"),
            ident("If"),
            ident("returns"),
            ident("do_"),
            ident("a_b9")
        ]
    );
}

#[test]
fn identifier_may_continue_with_non_ascii_letters() {
    assert_eq!(lex("x\u{e9}").unwrap(), vec![ident("x\u{e9}")]);
}

#[test]
fn digits_then_letters_are_two_tokens() {
    assert_eq!(lex("12ab").unwrap(), vec![Token::Number(12), ident("ab")]);
}

#[test]
fn every_symbol_has_its_token() {
    assert_eq!(
        lex("+ - * / = == != > < ( ) { } ; , :").unwrap(),
        vec![
            Token::Plus,
            Token::Minus,
            Token::Star,
            Token::Slash,
            Token::Equal,
            Token::Eq,
            Token::Neq,
            Token::Gt,
            Token::Lt,
            Token::LParen,
            Token::RParen,
            Token::LBrace,
            Token::RBrace,
            Token::Semicolon,
            Token::Comma,
            Token::Colon,
        ]
    );
}

#[test]
fn equals_signs_pair_up_from_the_left() {
    assert_eq!(lex("===").unwrap(), vec![Token::Eq, Token::Equal]);
    assert_eq!(lex("!==").unwrap(), vec![Token::Neq, Token::Equal]);
    assert_eq!(lex("= =").unwrap(), vec![Token::Equal, Token::Equal]);
}

#[test]
fn negative_literal_is_minus_then_number() {
    assert_eq!(lex("-5").unwrap(), vec![Token::Minus, Token::Number(5)]);
}

#[test]
fn lone_bang_is_a_syntax_error() {
    let e = lex("a ! b").unwrap_err();
    assert_eq!(e.kind(), ErrorKind::Syntax);
    assert_eq!(e.message(), "Unexpected character after '!'");
    assert_eq!(e.render(), "Syntax error: Unexpected character after '!'");
    assert!(lex("!").is_err());
}

#[test]
fn unknown_character_is_named_in_the_error() {
    let e = lex("let x = 1 @ 2;").unwrap_err();
    assert_eq!(e.kind(), ErrorKind::Syntax);
    assert_eq!(e.message(), "Unexpected character: @");
    let e = lex("\u{e9}").unwrap_err();
    assert_eq!(e.message(), "Unexpected character: \u{e9}");
}

#[test]
fn a_second_pass_finds_nothing_left() {
    let mut lexer = Lexer::new("x y");
    assert_eq!(lexer.tokenize().unwrap().len(), 2);
    assert_eq!(lexer.tokenize().unwrap(), vec![]);
}

#[test]
fn token_copies_compare_equal() {
    let t = ident("abc");
    assert_eq!(t.clone(), t);
    assert_ne!(ident("abc"), ident("abd"));
    assert_ne!(Token::Number(1), Token::Number(2));
    assert_ne!(Token::Eq, Token::Equal);
    assert_ne!(Token::Number(0), ident("0"));
}

#[test]
fn a_failed_pass_stops_at_the_refused_character() {
    let mut lexer = Lexer::new("a @ b");
    assert_eq!(lexer.tokenize().unwrap_err().message(), "Unexpected character: @");
    assert_eq!(lexer.tokenize().unwrap_err().message(), "Unexpected character: @");
}

#[test]
fn a_lone_bang_is_consumed_before_the_pass_fails() {
    let mut lexer = Lexer::new("a ! b");
    assert!(lexer.tokenize().is_err());
    assert_eq!(lexer.tokenize().unwrap(), vec![ident("b")]);
}
