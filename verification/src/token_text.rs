//! The text by which tokens and numbers are shown in messages.

use crate::lexer::{Token, TokenModel};
use vstd::prelude::*;
use vstd::string::StringExecFns;

verus! {

/// The character of a decimal digit.
pub open spec fn digit_char(d: int) -> char {
    if d == 0 {
        '0'
    } else if d == 1 {
        '1'
    } else if d == 2 {
        '2'
    } else if d == 3 {
        '3'
    } else if d == 4 {
        '4'
    } else if d == 5 {
        '5'
    } else if d == 6 {
        '6'
    } else if d == 7 {
        '7'
    } else if d == 8 {
        '8'
    } else {
        '9'
    }
}

/// The decimal digits of a natural number, most significant first.
pub open spec fn nat_text(n: nat) -> Seq<char>
    decreases n,
{
    if n < 10 {
        seq![digit_char(n as int)]
    } else {
        nat_text(n / 10).push(digit_char((n % 10) as int))
    }
}

/// The decimal text of an integer, with a leading `-` where it is negative.
pub open spec fn int_text(n: int) -> Seq<char> {
    if n < 0 {
        seq!['-'] + nat_text((-n) as nat)
    } else {
        nat_text(n as nat)
    }
}

/// The text of a token: its tag, and for an identifier or a number the
/// payload in parentheses.
pub open spec fn token_text(t: TokenModel) -> Seq<char> {
    match t {
        TokenModel::Ident(name) => "Ident(\""@ + name + "\")"@,
        TokenModel::Number(n) => "Number("@ + int_text(n as int) + ")"@,
        TokenModel::Let => "Let"@,
        TokenModel::Fn => "Fn"@,
        TokenModel::If => "If"@,
        TokenModel::Else => "Else"@,
        TokenModel::While => "While"@,
        TokenModel::Do => "Do"@,
        TokenModel::For => "For"@,
        TokenModel::Return => "Return"@,
        TokenModel::True => "True"@,
        TokenModel::False => "False"@,
        TokenModel::Plus => "Plus"@,
        TokenModel::Minus => "Minus"@,
        TokenModel::Star => "Star"@,
        TokenModel::Slash => "Slash"@,
        TokenModel::Equal => "Equal"@,
        TokenModel::Eq => "Eq"@,
        TokenModel::Neq => "Neq"@,
        TokenModel::Gt => "Gt"@,
        TokenModel::Lt => "Lt"@,
        TokenModel::LParen => "LParen"@,
        TokenModel::RParen => "RParen"@,
        TokenModel::LBrace => "LBrace"@,
        TokenModel::RBrace => "RBrace"@,
        TokenModel::Semicolon => "Semicolon"@,
        TokenModel::Comma => "Comma"@,
        TokenModel::Colon => "Colon"@,
    }
}

/// The text of a token that may be absent.
pub open spec fn found_text(t: Option<TokenModel>) -> Seq<char> {
    match t {
        Some(t) => "Some("@ + token_text(t) + ")"@,
        None => "None"@,
    }
}

/// The character of one decimal digit.
fn render_digit(d: u64) -> (c: char)
    requires
        d < 10,
    ensures
        c == digit_char(d as int),
{
    if d == 0 {
        '0'
    } else if d == 1 {
        '1'
    } else if d == 2 {
        '2'
    } else if d == 3 {
        '3'
    } else if d == 4 {
        '4'
    } else if d == 5 {
        '5'
    } else if d == 6 {
        '6'
    } else if d == 7 {
        '7'
    } else if d == 8 {
        '8'
    } else {
        '9'
    }
}

/// Writes a natural number in decimal.
pub fn render_nat(n: u64) -> (s: String)
    ensures
        s@ == nat_text(n as nat),
    decreases n,
{
    if n < 10 {
        let mut s = String::new();
        s.push(render_digit(n));
        assert(s@ =~= seq![digit_char(n as int)]);
        s
    } else {
        let mut s = render_nat(n / 10);
        s.push(render_digit(n % 10));
        s
    }
}

/// Writes an integer in decimal.
pub fn render_int(n: i64) -> (s: String)
    ensures
        s@ == int_text(n as int),
{
    if n < 0 {
        let magnitude: u64 = ((-(n + 1)) as u64) + 1;
        let digits = render_nat(magnitude);
        proof {
            reveal_strlit("-");
            assert("-"@ =~= seq!['-']);
        }
        String::from_str("-").concat(digits.as_str())
    } else {
        render_nat(n as u64)
    }
}

/// Writes a token as `token_text` spells it.
pub fn render_token(t: &Token) -> (s: String)
    ensures
        s@ == token_text(t@),
{
    match t {
        Token::Ident(name) => String::from_str("Ident(\"").concat(name.as_str()).concat("\")"),
        Token::Number(n) => {
            let digits = render_int(*n);
            String::from_str("Number(").concat(digits.as_str()).concat(")")
        },
        Token::Let => String::from_str("Let"),
        Token::Fn => String::from_str("Fn"),
        Token::If => String::from_str("If"),
        Token::Else => String::from_str("Else"),
        Token::While => String::from_str("While"),
        Token::Do => String::from_str("Do"),
        Token::For => String::from_str("For"),
        Token::Return => String::from_str("Return"),
        Token::True => String::from_str("True"),
        Token::False => String::from_str("False"),
        Token::Plus => String::from_str("Plus"),
        Token::Minus => String::from_str("Minus"),
        Token::Star => String::from_str("Star"),
        Token::Slash => String::from_str("Slash"),
        Token::Equal => String::from_str("Equal"),
        Token::Eq => String::from_str("Eq"),
        Token::Neq => String::from_str("Neq"),
        Token::Gt => String::from_str("Gt"),
        Token::Lt => String::from_str("Lt"),
        Token::LParen => String::from_str("LParen"),
        Token::RParen => String::from_str("RParen"),
        Token::LBrace => String::from_str("LBrace"),
        Token::RBrace => String::from_str("RBrace"),
        Token::Semicolon => String::from_str("Semicolon"),
        Token::Comma => String::from_str("Comma"),
        Token::Colon => String::from_str("Colon"),
    }
}

/// Writes a token that may be absent as `found_text` spells it.
pub fn render_found(t: Option<&Token>) -> (s: String)
    ensures
        s@ == found_text(
            match t {
                Some(t) => Some(t@),
                None => None,
            },
        ),
{
    match t {
        Some(t) => {
            let inner = render_token(t);
            String::from_str("Some(").concat(inner.as_str()).concat(")")
        },
        None => String::from_str("None"),
    }
}

} // verus!
