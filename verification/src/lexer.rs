//! The lexer: source text to an ordered token sequence, in one forward pass
//! with one character of lookahead.

use crate::error::CompilerError;
use vstd::prelude::*;
use vstd::string::StringExecFns;

verus! {

/// An atomic lexical unit.
#[derive(Debug)]
pub enum Token {
    Let,
    Fn,
    If,
    Else,
    While,
    Do,
    For,
    Return,
    True,
    False,
    Ident(String),
    Number(i64),
    Plus,
    Minus,
    Star,
    Slash,
    Equal,
    Eq,
    Neq,
    Gt,
    Lt,
    LParen,
    RParen,
    LBrace,
    RBrace,
    Semicolon,
    Comma,
    Colon,
}

/// The mathematical value of a token: an identifier's name is a character
/// sequence.
pub enum TokenModel {
    Let,
    Fn,
    If,
    Else,
    While,
    Do,
    For,
    Return,
    True,
    False,
    Ident(Seq<char>),
    Number(i64),
    Plus,
    Minus,
    Star,
    Slash,
    Equal,
    Eq,
    Neq,
    Gt,
    Lt,
    LParen,
    RParen,
    LBrace,
    RBrace,
    Semicolon,
    Comma,
    Colon,
}

impl View for Token {
    type V = TokenModel;

    open spec fn view(&self) -> TokenModel {
        match self {
            Token::Ident(name) => TokenModel::Ident(name@),
            Token::Number(n) => TokenModel::Number(*n),
            Token::Let => TokenModel::Let,
            Token::Fn => TokenModel::Fn,
            Token::If => TokenModel::If,
            Token::Else => TokenModel::Else,
            Token::While => TokenModel::While,
            Token::Do => TokenModel::Do,
            Token::For => TokenModel::For,
            Token::Return => TokenModel::Return,
            Token::True => TokenModel::True,
            Token::False => TokenModel::False,
            Token::Plus => TokenModel::Plus,
            Token::Minus => TokenModel::Minus,
            Token::Star => TokenModel::Star,
            Token::Slash => TokenModel::Slash,
            Token::Equal => TokenModel::Equal,
            Token::Eq => TokenModel::Eq,
            Token::Neq => TokenModel::Neq,
            Token::Gt => TokenModel::Gt,
            Token::Lt => TokenModel::Lt,
            Token::LParen => TokenModel::LParen,
            Token::RParen => TokenModel::RParen,
            Token::LBrace => TokenModel::LBrace,
            Token::RBrace => TokenModel::RBrace,
            Token::Semicolon => TokenModel::Semicolon,
            Token::Comma => TokenModel::Comma,
            Token::Colon => TokenModel::Colon,
        }
    }
}

impl Token {
    /// A copy of this token.
    pub fn duplicate(&self) -> (t: Token)
        ensures
            t@ == self@,
    {
        match self {
            Token::Ident(name) => Token::Ident(name.clone()),
            Token::Number(n) => Token::Number(*n),
            Token::Let => Token::Let,
            Token::Fn => Token::Fn,
            Token::If => Token::If,
            Token::Else => Token::Else,
            Token::While => Token::While,
            Token::Do => Token::Do,
            Token::For => Token::For,
            Token::Return => Token::Return,
            Token::True => Token::True,
            Token::False => Token::False,
            Token::Plus => Token::Plus,
            Token::Minus => Token::Minus,
            Token::Star => Token::Star,
            Token::Slash => Token::Slash,
            Token::Equal => Token::Equal,
            Token::Eq => Token::Eq,
            Token::Neq => Token::Neq,
            Token::Gt => Token::Gt,
            Token::Lt => Token::Lt,
            Token::LParen => Token::LParen,
            Token::RParen => Token::RParen,
            Token::LBrace => Token::LBrace,
            Token::RBrace => Token::RBrace,
            Token::Semicolon => Token::Semicolon,
            Token::Comma => Token::Comma,
            Token::Colon => Token::Colon,
        }
    }

    /// Whether two tokens are the same: the same tag, and for an identifier
    /// or a number the same payload.
    pub fn same(&self, other: &Token) -> (r: bool)
        ensures
            r == (self@ == other@),
    {
        match (self, other) {
            (Token::Ident(a), Token::Ident(b)) => *a == *b,
            (Token::Ident(_), _) => false,
            (_, Token::Ident(_)) => false,
            (Token::Number(a), Token::Number(b)) => *a == *b,
            (Token::Number(_), _) => false,
            (_, Token::Number(_)) => false,
            (a, b) => a.tag() == b.tag(),
        }
    }

    /// A number that tells the token tags apart.
    pub open spec fn spec_tag(&self) -> u8 {
        tag_of(self@)
    }

    /// A number that tells the token tags apart.
    #[verifier::when_used_as_spec(spec_tag)]
    pub fn tag(&self) -> (n: u8)
        ensures
            n == tag_of(self@),
    {
        match self {
            Token::Ident(_) => 0,
            Token::Number(_) => 1,
            Token::Let => 2,
            Token::Fn => 3,
            Token::If => 4,
            Token::Else => 5,
            Token::While => 6,
            Token::Do => 7,
            Token::For => 8,
            Token::Return => 9,
            Token::True => 10,
            Token::False => 11,
            Token::Plus => 12,
            Token::Minus => 13,
            Token::Star => 14,
            Token::Slash => 15,
            Token::Equal => 16,
            Token::Eq => 17,
            Token::Neq => 18,
            Token::Gt => 19,
            Token::Lt => 20,
            Token::LParen => 21,
            Token::RParen => 22,
            Token::LBrace => 23,
            Token::RBrace => 24,
            Token::Semicolon => 25,
            Token::Comma => 26,
            Token::Colon => 27,
        }
    }
}

/// The number that stands for a token's tag; distinct tags have distinct
/// numbers.
pub open spec fn tag_of(t: TokenModel) -> u8 {
    match t {
        TokenModel::Ident(_) => 0,
        TokenModel::Number(_) => 1,
        TokenModel::Let => 2,
        TokenModel::Fn => 3,
        TokenModel::If => 4,
        TokenModel::Else => 5,
        TokenModel::While => 6,
        TokenModel::Do => 7,
        TokenModel::For => 8,
        TokenModel::Return => 9,
        TokenModel::True => 10,
        TokenModel::False => 11,
        TokenModel::Plus => 12,
        TokenModel::Minus => 13,
        TokenModel::Star => 14,
        TokenModel::Slash => 15,
        TokenModel::Equal => 16,
        TokenModel::Eq => 17,
        TokenModel::Neq => 18,
        TokenModel::Gt => 19,
        TokenModel::Lt => 20,
        TokenModel::LParen => 21,
        TokenModel::RParen => 22,
        TokenModel::LBrace => 23,
        TokenModel::RBrace => 24,
        TokenModel::Semicolon => 25,
        TokenModel::Comma => 26,
        TokenModel::Colon => 27,
    }
}

impl Clone for Token {
    fn clone(&self) -> (t: Self)
        ensures
            t@ == self@,
    {
        self.duplicate()
    }
}

impl PartialEq for Token {
    fn eq(&self, other: &Self) -> (r: bool) {
        self.same(other)
    }
}

impl vstd::std_specs::cmp::PartialEqSpecImpl for Token {
    open spec fn obeys_eq_spec() -> bool {
        true
    }

    open spec fn eq_spec(&self, other: &Self) -> bool {
        self@ == other@
    }
}

/// The models of a sequence of tokens, in order.
pub open spec fn tokens_model(v: Seq<Token>) -> Seq<TokenModel> {
    Seq::new(v.len(), |i: int| v[i]@)
}

/// Whether `c` is skipped between tokens.
pub open spec fn is_space(c: char) -> bool {
    c == ' ' || c == '\n' || c == '\t' || c == '\r'
}

/// Whether `c` is a decimal digit.
pub open spec fn is_digit(c: char) -> bool {
    '0' <= c && c <= '9'
}

/// The value of a decimal digit.
pub open spec fn digit_value(c: char) -> int {
    c as int - 48
}

/// Whether `c` may start an identifier or keyword.
pub open spec fn is_ident_start(c: char) -> bool {
    ('a' <= c && c <= 'z') || ('A' <= c && c <= 'Z') || c == '_'
}

/// Whether `c` is alphanumeric in the sense of the standard library's
/// `char::is_alphanumeric`, whose result this names.
pub uninterp spec fn alphanumeric(c: char) -> bool;

/// Whether `c` may continue an identifier or keyword.
pub open spec fn is_ident_part(c: char) -> bool {
    alphanumeric(c) || c == '_'
}

/// The number of consecutive digits of `s` from position `i` on.
pub open spec fn digits_len(s: Seq<char>, i: int) -> nat
    decreases s.len() - i,
{
    if 0 <= i < s.len() && is_digit(s[i]) {
        1 + digits_len(s, i + 1)
    } else {
        0
    }
}

/// The number of consecutive identifier characters of `s` from position `i`
/// on.
pub open spec fn word_len(s: Seq<char>, i: int) -> nat
    decreases s.len() - i,
{
    if 0 <= i < s.len() && is_ident_part(s[i]) {
        1 + word_len(s, i + 1)
    } else {
        0
    }
}

/// The decimal value of a digit string, as a mathematical integer.
pub open spec fn decimal_value(digits: Seq<char>) -> int
    decreases digits.len(),
{
    if digits.len() == 0 {
        0
    } else {
        decimal_value(digits.drop_last()) * 10 + digit_value(digits.last())
    }
}

/// The value the lexer gives a digit string: its decimal value accumulated
/// digit by digit in 64-bit two's complement, without an overflow check.
pub open spec fn literal_value(digits: Seq<char>) -> i64
    decreases digits.len(),
{
    if digits.len() == 0 {
        0
    } else {
        literal_value(digits.drop_last()).wrapping_mul(10).wrapping_add(
            digit_value(digits.last()) as i64,
        )
    }
}

/// Whether `word` is one of the ten keywords.
pub open spec fn is_keyword(word: Seq<char>) -> bool {
    word == "let"@ || word == "fn"@ || word == "if"@ || word == "else"@ || word == "while"@ || word == "do"@ || word == "for"@ || word == "return"@ || word == "true"@ || word == "false"@
}

/// The token for a letter-led run: its keyword, or an identifier.
pub open spec fn word_token(word: Seq<char>) -> TokenModel {
    if word == "let"@ {
        TokenModel::Let
    } else if word == "fn"@ {
        TokenModel::Fn
    } else if word == "if"@ {
        TokenModel::If
    } else if word == "else"@ {
        TokenModel::Else
    } else if word == "while"@ {
        TokenModel::While
    } else if word == "do"@ {
        TokenModel::Do
    } else if word == "for"@ {
        TokenModel::For
    } else if word == "return"@ {
        TokenModel::Return
    } else if word == "true"@ {
        TokenModel::True
    } else if word == "false"@ {
        TokenModel::False
    } else {
        TokenModel::Ident(word)
    }
}

/// The token for a one-character symbol, if `c` is one.
pub open spec fn symbol_token(c: char) -> Option<TokenModel> {
    if c == '+' {
        Some(TokenModel::Plus)
    } else if c == '-' {
        Some(TokenModel::Minus)
    } else if c == '*' {
        Some(TokenModel::Star)
    } else if c == '/' {
        Some(TokenModel::Slash)
    } else if c == '>' {
        Some(TokenModel::Gt)
    } else if c == '<' {
        Some(TokenModel::Lt)
    } else if c == '(' {
        Some(TokenModel::LParen)
    } else if c == ')' {
        Some(TokenModel::RParen)
    } else if c == '{' {
        Some(TokenModel::LBrace)
    } else if c == '}' {
        Some(TokenModel::RBrace)
    } else if c == ';' {
        Some(TokenModel::Semicolon)
    } else if c == ',' {
        Some(TokenModel::Comma)
    } else if c == ':' {
        Some(TokenModel::Colon)
    } else {
        None
    }
}

/// The message for a `!` that no `=` follows.
pub open spec fn lone_bang_message() -> Seq<char> {
    "Unexpected character after '!'"@
}

/// The message for a character that starts no token.
pub open spec fn unexpected_char_message(c: char) -> Seq<char> {
    "Unexpected character: "@.push(c)
}

/// One step of the lexer at position `i` of `s`: the token found there, if
/// the step produces one, and the number of characters consumed; or the
/// number of characters consumed before the failure and its message.
pub open spec fn lex_step(s: Seq<char>, i: int) -> Result<
    (Option<TokenModel>, nat),
    (nat, Seq<char>),
>
    recommends
        0 <= i < s.len(),
{
    let c = s[i];
    if is_space(c) {
        Ok((None, 1))
    } else if is_digit(c) {
        let n = digits_len(s, i);
        Ok((Some(TokenModel::Number(literal_value(s.subrange(i, i + n)))), n))
    } else if is_ident_start(c) {
        let n = 1 + word_len(s, i + 1);
        Ok((Some(word_token(s.subrange(i, i + n))), n as nat))
    } else if c == '=' {
        if i + 1 < s.len() && s[i + 1] == '=' {
            Ok((Some(TokenModel::Eq), 2))
        } else {
            Ok((Some(TokenModel::Equal), 1))
        }
    } else if c == '!' {
        if i + 1 < s.len() && s[i + 1] == '=' {
            Ok((Some(TokenModel::Neq), 2))
        } else {
            Err((1, lone_bang_message()))
        }
    } else {
        match symbol_token(c) {
            Some(t) => Ok((Some(t), 1)),
            None => Err((0, unexpected_char_message(c))),
        }
    }
}

/// The tokens of `s` from position `i` on, or the position at which the
/// pass stops and the message of the first failure. A step that consumed
/// nothing would end the pass; `lemma_step_advances` shows that no step
/// does.
pub open spec fn lex_from(s: Seq<char>, i: int) -> Result<Seq<TokenModel>, (int, Seq<char>)>
    decreases s.len() - i,
{
    if i < 0 || i >= s.len() {
        Ok(Seq::empty())
    } else {
        let step = lex_step(s, i);
        if step is Err {
            Err((i + step->Err_0.0, step->Err_0.1))
        } else {
            let tok = step->Ok_0.0;
            let n = step->Ok_0.1;
            if n == 0 || i + n > s.len() {
                Ok(Seq::empty())
            } else {
                let rest = lex_from(s, i + n);
                if rest is Err {
                    rest
                } else if tok is Some {
                    Ok(seq![tok->Some_0] + rest->Ok_0)
                } else {
                    rest
                }
            }
        }
    }
}

/// `found` followed by what lexing the rest gives.
pub open spec fn lex_after(
    found: Seq<TokenModel>,
    rest: Result<Seq<TokenModel>, (int, Seq<char>)>,
) -> Result<Seq<TokenModel>, (int, Seq<char>)> {
    match rest {
        Ok(ts) => Ok(found + ts),
        Err(msg) => Err(msg),
    }
}

/// Taken on trust from the standard library: `String::push` appends the
/// character `c` to the end of the string and changes nothing else in it.
pub assume_specification[ String::push ](s: &mut String, c: char)
    ensures
        final(s)@ == old(s)@.push(c),
;

/// Taken on trust from the standard library: what `char::is_alphanumeric`
/// returns depends on the character alone. `alphanumeric` names that
/// result; nothing else is assumed of it.
pub assume_specification[ char::is_alphanumeric ](c: char) -> (b: bool)
    ensures
        b == alphanumeric(c),
;

/// Whether the string `s` reads exactly as the literal `lit`.
fn is_word(s: &String, lit: &str) -> (r: bool)
    ensures
        r == (s@ == lit@),
{
    let other = String::from_str(lit);
    *s == other
}

/// The token of a one-character symbol.
fn symbol(c: char) -> (r: Option<Token>)
    ensures
        match r {
            Some(t) => symbol_token(c) == Some(t@),
            None => symbol_token(c) is None,
        },
{
    if c == '+' {
        Some(Token::Plus)
    } else if c == '-' {
        Some(Token::Minus)
    } else if c == '*' {
        Some(Token::Star)
    } else if c == '/' {
        Some(Token::Slash)
    } else if c == '>' {
        Some(Token::Gt)
    } else if c == '<' {
        Some(Token::Lt)
    } else if c == '(' {
        Some(Token::LParen)
    } else if c == ')' {
        Some(Token::RParen)
    } else if c == '{' {
        Some(Token::LBrace)
    } else if c == '}' {
        Some(Token::RBrace)
    } else if c == ';' {
        Some(Token::Semicolon)
    } else if c == ',' {
        Some(Token::Comma)
    } else if c == ':' {
        Some(Token::Colon)
    } else {
        None
    }
}

/// A lexer over one source text.
pub struct Lexer {
    input: Vec<char>,
    pos: usize,
}

impl Lexer {
    /// The source text.
    pub closed spec fn source(&self) -> Seq<char> {
        self.input@
    }

    /// The position of the next unread character.
    pub closed spec fn position(&self) -> int {
        self.pos as int
    }

    /// The position lies within the text or at its end.
    pub closed spec fn wf(&self) -> bool {
        self.pos <= self.input.len()
    }

    /// A lexer at the start of `input`.
    pub fn new(input: &str) -> (l: Self)
        ensures
            l.wf(),
            l.source() == input@,
            l.position() == 0,
    {
        let n = input.unicode_len();
        let mut chars: Vec<char> = Vec::new();
        let mut i: usize = 0;
        while i < n
            invariant
                n == input@.len(),
                i <= n,
                chars@ == input@.subrange(0, i as int),
            decreases n - i,
        {
            chars.push(input.get_char(i));
            assert(chars@ =~= input@.subrange(0, i + 1));
            i += 1;
        }
        assert(chars@ =~= input@);
        Lexer { input: chars, pos: 0 }
    }

    /// The next unread character, if any.
    fn peek(&self) -> (r: Option<char>)
        requires
            self.wf(),
        ensures
            r == if self.position() < self.source().len() {
                Some(self.source()[self.position()])
            } else {
                None
            },
    {
        if self.pos < self.input.len() {
            Some(self.input[self.pos])
        } else {
            None
        }
    }

    /// Steps over one character.
    fn advance(&mut self)
        requires
            old(self).position() < old(self).source().len(),
        ensures
            final(self).source() == old(self).source(),
            final(self).position() == old(self).position() + 1,
            final(self).wf(),
    {
        assert(self.input.len() <= usize::MAX);
        self.pos += 1;
    }

    /// Steps over the next character if it is `expected`.
    fn match_char(&mut self, expected: char) -> (r: bool)
        requires
            old(self).wf(),
        ensures
            final(self).wf(),
            final(self).source() == old(self).source(),
            r == (old(self).position() < old(self).source().len() && old(self).source()[old(
                self,
            ).position()] == expected),
            final(self).position() == old(self).position() + if r {
                1int
            } else {
                0int
            },
    {
        match self.peek() {
            Some(c) => {
                if c == expected {
                    self.advance();
                    return true;
                }
                false
            },
            None => false,
        }
    }

    /// Reads the digit run at the current position.
    fn tokenize_number(&mut self) -> (t: Token)
        requires
            old(self).wf(),
        ensures
            final(self).wf(),
            final(self).source() == old(self).source(),
            final(self).position() == old(self).position() + digits_len(
                old(self).source(),
                old(self).position(),
            ),
            t@ == TokenModel::Number(
                literal_value(
                    old(self).source().subrange(old(self).position(), final(self).position()),
                ),
            ),
    {
        let ghost s = self.input@;
        let ghost start = self.pos as int;
        let mut num: i64 = 0;
        loop
            invariant
                self.input@ == s,
                start <= self.pos <= s.len(),
                start == old(self).pos,
                digits_len(s, start) == (self.pos - start) + digits_len(s, self.pos as int),
                num == literal_value(s.subrange(start, self.pos as int)),
            ensures
                digits_len(s, self.pos as int) == 0,
            decreases s.len() - self.pos,
        {
            match self.peek() {
                Some(c) => {
                    if c >= '0' && c <= '9' {
                        let d: i64 = (c as u32 - 48) as i64;
                        proof {
                            let next = s.subrange(start, self.pos + 1);
                            assert(next.drop_last() =~= s.subrange(start, self.pos as int));
                            assert(next.last() == c);
                        }
                        num = num.wrapping_mul(10).wrapping_add(d);
                        self.advance();
                    } else {
                        break ;
                    }
                },
                None => {
                    break ;
                },
            }
        }
        Token::Number(num)
    }

    /// Reads the identifier or keyword whose first character is at the
    /// current position.
    fn tokenize_ident_or_keyword(&mut self) -> (t: Token)
        requires
            old(self).wf(),
            old(self).position() < old(self).source().len(),
        ensures
            final(self).wf(),
            final(self).source() == old(self).source(),
            final(self).position() == old(self).position() + 1 + word_len(
                old(self).source(),
                old(self).position() + 1,
            ),
            t@ == word_token(
                old(self).source().subrange(old(self).position(), final(self).position()),
            ),
    {
        let ghost s = self.input@;
        let ghost start = self.pos as int;
        let mut ident = String::new();
        ident.push(self.input[self.pos]);
        self.advance();
        assert(ident@ =~= s.subrange(start, start + 1));
        loop
            invariant
                self.input@ == s,
                start < self.pos <= s.len(),
                start == old(self).pos,
                word_len(s, start + 1) == (self.pos - start - 1) + word_len(s, self.pos as int),
                ident@ == s.subrange(start, self.pos as int),
            ensures
                word_len(s, self.pos as int) == 0,
            decreases s.len() - self.pos,
        {
            match self.peek() {
                Some(c) => {
                    if c.is_alphanumeric() || c == '_' {
                        ident.push(c);
                        assert(ident@ =~= s.subrange(start, self.pos + 1));
                        self.advance();
                    } else {
                        break ;
                    }
                },
                None => {
                    break ;
                },
            }
        }
        if is_word(&ident, "let") {
            Token::Let
        } else if is_word(&ident, "fn") {
            Token::Fn
        } else if is_word(&ident, "if") {
            Token::If
        } else if is_word(&ident, "else") {
            Token::Else
        } else if is_word(&ident, "while") {
            Token::While
        } else if is_word(&ident, "do") {
            Token::Do
        } else if is_word(&ident, "for") {
            Token::For
        } else if is_word(&ident, "return") {
            Token::Return
        } else if is_word(&ident, "true") {
            Token::True
        } else if is_word(&ident, "false") {
            Token::False
        } else {
            Token::Ident(ident)
        }
    }

    /// Turns the unread rest of the source text into tokens.
    ///
    /// Succeeds exactly when every character from the current position on
    /// belongs to a token or is white space; the first character that does
    /// not ends the pass there, with the message that names it.
    #[verifier::rlimit(60)]
    pub fn tokenize(&mut self) -> (r: Result<Vec<Token>, CompilerError>)
        requires
            old(self).wf(),
        ensures
            final(self).wf(),
            final(self).source() == old(self).source(),
            match r {
                Ok(tokens) => {
                    &&& lex_from(old(self).source(), old(self).position()) == Ok::<
                        Seq<TokenModel>,
                        (int, Seq<char>),
                    >(tokens_model(tokens@))
                    &&& final(self).position() == old(self).source().len()
                },
                Err(e) => {
                    &&& e is SyntaxError
                    &&& lex_from(old(self).source(), old(self).position()) == Err::<
                        Seq<TokenModel>,
                        (int, Seq<char>),
                    >((final(self).position(), e.spec_message()))
                },
            },
    {
        let ghost s = self.input@;
        let ghost start = self.pos as int;
        let mut tokens: Vec<Token> = Vec::new();
        assert(tokens_model(tokens@) =~= Seq::<TokenModel>::empty());
        loop
            invariant
                self.input@ == s,
                s == old(self).input@,
                start == old(self).pos,
                0 <= start <= self.pos <= s.len(),
                lex_from(s, start) == lex_after(tokens_model(tokens@), lex_from(s, self.pos as int)),
            decreases s.len() - self.pos,
        {
            let ghost here = self.pos as int;
            let ghost found = tokens@;
            let c = match self.peek() {
                Some(c) => c,
                None => {
                    assert(tokens_model(found) + Seq::<TokenModel>::empty() =~= tokens_model(found));
                    return Ok(tokens);
                },
            };
            if c == ' ' || c == '\n' || c == '\t' || c == '\r' {
                self.advance();
            } else if c >= '0' && c <= '9' {
                let t = self.tokenize_number();
                tokens.push(t);
                proof {
                    lemma_push_token(found, tokens@, t, lex_from(s, self.pos as int));
                }
            } else if (c >= 'a' && c <= 'z') || (c >= 'A' && c <= 'Z') || c == '_' {
                let t = self.tokenize_ident_or_keyword();
                tokens.push(t);
                proof {
                    lemma_push_token(found, tokens@, t, lex_from(s, self.pos as int));
                }
            } else if c == '=' {
                self.advance();
                let t = if self.match_char('=') {
                    Token::Eq
                } else {
                    Token::Equal
                };
                tokens.push(t);
                proof {
                    lemma_push_token(found, tokens@, t, lex_from(s, self.pos as int));
                }
            } else if c == '!' {
                self.advance();
                if self.match_char('=') {
                    tokens.push(Token::Neq);
                    proof {
                        lemma_push_token(found, tokens@, Token::Neq, lex_from(s, self.pos as int));
                    }
                } else {
                    return Err(
                        CompilerError::SyntaxError(
                            String::from_str("Unexpected character after '!'"),
                        ),
                    );
                }
            } else {
                match symbol(c) {
                    Some(t) => {
                        self.advance();
                        tokens.push(t);
                        proof {
                            lemma_push_token(found, tokens@, t, lex_from(s, self.pos as int));
                        }
                    },
                    None => {
                        let mut msg = String::from_str("Unexpected character: ");
                        msg.push(c);
                        return Err(CompilerError::SyntaxError(msg));
                    },
                }
            }
        }
    }
}

/// Appending a token to what was found equals putting it in front of what
/// follows.
proof fn lemma_push_token(
    before: Seq<Token>,
    pushed: Seq<Token>,
    t: Token,
    rest: Result<Seq<TokenModel>, (int, Seq<char>)>,
)
    requires
        pushed == before.push(t),
    ensures
        tokens_model(pushed) == tokens_model(before).push(t@),
        lex_after(tokens_model(pushed), rest) == lex_after(
            tokens_model(before),
            match rest {
                Ok(ts) => Ok(seq![t@] + ts),
                Err(msg) => Err(msg),
            },
        ),
{
    let found = tokens_model(before);
    assert(tokens_model(pushed) =~= found.push(t@));
    match rest {
        Ok(ts) => {
            assert(found.push(t@) + ts =~= found + (seq![t@] + ts));
        },
        Err(_) => {},
    }
}

/// A digit string whose decimal value fits in 64 bits lexes to that value.
pub proof fn lemma_literal_is_decimal(digits: Seq<char>)
    requires
        forall|i: int| 0 <= i < digits.len() ==> is_digit(#[trigger] digits[i]),
        decimal_value(digits) <= i64::MAX,
    ensures
        literal_value(digits) == decimal_value(digits),
        decimal_value(digits) >= 0,
    decreases digits.len(),
{
    if digits.len() > 0 {
        let init = digits.drop_last();
        lemma_decimal_nonnegative(init);
        assert(is_digit(digits[digits.len() - 1]));
        lemma_literal_is_decimal(init);
    }
}

/// The decimal value of a digit string is not negative.
pub proof fn lemma_decimal_nonnegative(digits: Seq<char>)
    requires
        forall|i: int| 0 <= i < digits.len() ==> is_digit(#[trigger] digits[i]),
    ensures
        decimal_value(digits) >= 0,
    decreases digits.len(),
{
    if digits.len() > 0 {
        lemma_decimal_nonnegative(digits.drop_last());
        assert(is_digit(digits[digits.len() - 1]));
    }
}

/// Lexing is a function of the text: two texts with the same characters
/// give the same tokens, or stop at the same place with the same message.
pub proof fn lemma_lexing_is_deterministic(a: Seq<char>, b: Seq<char>, i: int)
    requires
        a.len() == b.len(),
        forall|j: int| 0 <= j < a.len() ==> a[j] == b[j],
    ensures
        lex_from(a, i) == lex_from(b, i),
{
    assert(a =~= b);
}

/// The characters of a digit run are digits.
pub proof fn lemma_digit_run(s: Seq<char>, i: int)
    requires
        0 <= i,
    ensures
        i + digits_len(s, i) <= s.len() || digits_len(s, i) == 0,
        forall|j: int| i <= j < i + digits_len(s, i) ==> is_digit(#[trigger] s[j]),
    decreases s.len() - i,
{
    if i < s.len() && is_digit(s[i]) {
        lemma_digit_run(s, i + 1);
    }
}

/// A run of identifier characters ends within the text.
pub proof fn lemma_word_run(s: Seq<char>, i: int)
    requires
        0 <= i,
    ensures
        i + word_len(s, i) <= s.len() || word_len(s, i) == 0,
    decreases s.len() - i,
{
    if i < s.len() && is_ident_part(s[i]) {
        lemma_word_run(s, i + 1);
    }
}

/// Every successful step of the lexer consumes at least one character and
/// stays within the text, so lexing goes on to the end of the text or to
/// the first failure.
pub proof fn lemma_step_advances(s: Seq<char>, i: int)
    requires
        0 <= i < s.len(),
        lex_step(s, i) is Ok,
    ensures
        1 <= lex_step(s, i)->Ok_0.1,
        i + lex_step(s, i)->Ok_0.1 <= s.len(),
{
    lemma_digit_run(s, i);
    lemma_word_run(s, i + 1);
}

/// Where a digit run starts at position `i` and its decimal value fits in
/// 64 bits, the lexer's step there yields the number token of that value
/// and consumes the run.
pub proof fn lemma_number_token(s: Seq<char>, i: int)
    requires
        0 <= i < s.len(),
        is_digit(s[i]),
        decimal_value(s.subrange(i, i + digits_len(s, i))) <= i64::MAX,
    ensures
        lex_step(s, i) == Ok::<(Option<TokenModel>, nat), (nat, Seq<char>)>(
            (
                Some(
                    TokenModel::Number(
                        decimal_value(s.subrange(i, i + digits_len(s, i))) as i64,
                    ),
                ),
                digits_len(s, i),
            ),
        ),
{
    lemma_digit_run(s, i);
    lemma_literal_is_decimal(s.subrange(i, i + digits_len(s, i)));
}

/// A letter-led run that is no keyword lexes to an identifier of that name,
/// and a keyword never does.
pub proof fn lemma_word_is_ident(word: Seq<char>)
    ensures
        !is_keyword(word) <==> word_token(word) == TokenModel::Ident(word),
{
}

} // verus!
