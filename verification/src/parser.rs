//! The parser: recursive descent over the token sequence, building the
//! syntax tree directly, with one token of lookahead.
//!
//! The grammar is stated as functions from a token sequence and a position
//! to a tree and the position behind it; the parser is proved to compute
//! them.

use crate::ast::{
    expr_model, exprs_model, lemma_block_model, lemma_call_model, names_model, stmts_model, BinOp, Expr,
    ExprModel, Stmt, StmtModel,
};
use crate::error::CompilerError;
use crate::lexer::{tokens_model, Token, TokenModel};
use crate::token_text::{found_text, render_found, render_token, token_text};
use vstd::prelude::*;
use vstd::string::StringExecFns;

verus! {

/// Why a token sequence is no program. The grammar reports a fault together
/// with the position of the token that was refused.
pub enum SyntaxFault {
    /// A fixed token was required; the second field is what stood there.
    Expected(TokenModel, Option<TokenModel>),
    /// No expression can start with what stood there.
    Unexpected(Option<TokenModel>),
    /// `let` without a name behind it.
    LetName,
    /// `for (` without a loop variable behind it.
    ForName,
    /// `fn` without a name behind it.
    FnName,
    /// A parameter list in which a name is missing.
    ParamName,
}

/// The message of a syntax fault.
pub open spec fn fault_text(f: SyntaxFault) -> Seq<char> {
    match f {
        SyntaxFault::Expected(expected, found) => "Expected "@ + token_text(expected) + ", found "@
            + found_text(found),
        SyntaxFault::Unexpected(found) => "Unexpected token "@ + found_text(found)
            + " in expression"@,
        SyntaxFault::LetName => "Expected identifier after let"@,
        SyntaxFault::ForName => "Expected identifier in for loop"@,
        SyntaxFault::FnName => "Expected function name"@,
        SyntaxFault::ParamName => "Expected parameter name"@,
    }
}

/// The token at `pos`, if there is one.
pub open spec fn peek_at(ts: Seq<TokenModel>, pos: int) -> Option<TokenModel> {
    if 0 <= pos < ts.len() {
        Some(ts[pos])
    } else {
        None
    }
}

/// Requires the token `t` at `pos` and steps over it.
pub open spec fn expect_at(ts: Seq<TokenModel>, pos: int, t: TokenModel) -> Result<
    int,
    (int, SyntaxFault),
> {
    if peek_at(ts, pos) == Some(t) {
        Ok(pos + 1)
    } else {
        Err((pos, SyntaxFault::Expected(t, peek_at(ts, pos))))
    }
}

/// Requires an identifier at `pos` and steps over it; `fault` says what is
/// reported where none stands there.
pub open spec fn name_at(ts: Seq<TokenModel>, pos: int, fault: SyntaxFault) -> Result<
    (Seq<char>, int),
    (int, SyntaxFault),
> {
    match peek_at(ts, pos) {
        Some(TokenModel::Ident(name)) => Ok((name, pos + 1)),
        _ => Err((pos, fault)),
    }
}

/// The outcome `r` of parsing from `pos`, which ends behind `pos` and within
/// the `len` tokens whenever it succeeds. Every rule consumes a token, so
/// this never changes an outcome (`lemma_forward_changes_nothing`); it
/// makes the grammar's recursion well-founded.
pub open spec fn forward<T>(r: Result<(T, int), (int, SyntaxFault)>, pos: int, len: nat) -> Result<
    (T, int),
    (int, SyntaxFault),
> {
    match r {
        Ok((_, p)) => if pos < p <= len {
            r
        } else {
            Err((pos, SyntaxFault::Unexpected(None)))
        },
        Err(_) => r,
    }
}

/// The operator that the token `t` stands for on the given precedence
/// level: 4 is equality, 3 comparison, 2 sums, 1 products.
pub open spec fn level_op(level: nat, t: Option<TokenModel>) -> Option<BinOp> {
    match t {
        Some(TokenModel::Eq) => if level == 4 {
            Some(BinOp::Eq)
        } else {
            None
        },
        Some(TokenModel::Neq) => if level == 4 {
            Some(BinOp::Neq)
        } else {
            None
        },
        Some(TokenModel::Gt) => if level == 3 {
            Some(BinOp::Gt)
        } else {
            None
        },
        Some(TokenModel::Lt) => if level == 3 {
            Some(BinOp::Lt)
        } else {
            None
        },
        Some(TokenModel::Plus) => if level == 2 {
            Some(BinOp::Add)
        } else {
            None
        },
        Some(TokenModel::Minus) => if level == 2 {
            Some(BinOp::Sub)
        } else {
            None
        },
        Some(TokenModel::Star) => if level == 1 {
            Some(BinOp::Mul)
        } else {
            None
        },
        Some(TokenModel::Slash) => if level == 1 {
            Some(BinOp::Div)
        } else {
            None
        },
        _ => None,
    }
}

/// `primary := NUMBER | "true" | "false" | IDENT ("(" args? ")")? | "(" expr ")"`
pub open spec fn grammar_primary(ts: Seq<TokenModel>, pos: int) -> Result<
    (ExprModel, int),
    (int, SyntaxFault),
>
    decreases ts.len() - pos, 0int,
{
    match peek_at(ts, pos) {
        Some(TokenModel::Number(n)) => Ok((ExprModel::Number(n), pos + 1)),
        Some(TokenModel::True) => Ok((ExprModel::Bool(true), pos + 1)),
        Some(TokenModel::False) => Ok((ExprModel::Bool(false), pos + 1)),
        Some(TokenModel::Ident(name)) => if peek_at(ts, pos + 1) == Some(TokenModel::LParen) {
            if peek_at(ts, pos + 2) == Some(TokenModel::RParen) {
                Ok((ExprModel::Call(name, Seq::empty()), pos + 3))
            } else {
                match grammar_args(ts, pos + 2, Seq::empty()) {
                    Ok((args, p)) => match expect_at(ts, p, TokenModel::RParen) {
                        Ok(end) => Ok((ExprModel::Call(name, args), end)),
                        Err(f) => Err(f),
                    },
                    Err(f) => Err(f),
                }
            }
        } else {
            Ok((ExprModel::Variable(name), pos + 1))
        },
        Some(TokenModel::LParen) => grammar_expr_then(ts, pos + 1, TokenModel::RParen),
        other => Err((pos, SyntaxFault::Unexpected(other))),
    }
}

/// `expr ("," expr)*`, appended to the arguments `acc` read so far.
pub open spec fn grammar_args(ts: Seq<TokenModel>, pos: int, acc: Seq<ExprModel>) -> Result<
    (Seq<ExprModel>, int),
    (int, SyntaxFault),
>
    decreases ts.len() - pos, 12int,
{
    match forward(grammar_expr(ts, pos), pos, ts.len()) {
        Ok((e, p)) => if peek_at(ts, p) == Some(TokenModel::Comma) {
            grammar_args(ts, p + 1, acc.push(e))
        } else {
            Ok((acc.push(e), p))
        },
        Err(f) => Err(f),
    }
}

/// `unary := "-"? primary`; `-e` is read as `0 - e`.
pub open spec fn grammar_unary(ts: Seq<TokenModel>, pos: int) -> Result<
    (ExprModel, int),
    (int, SyntaxFault),
>
    decreases ts.len() - pos, 1int,
{
    if peek_at(ts, pos) == Some(TokenModel::Minus) {
        match grammar_primary(ts, pos + 1) {
            Ok((e, p)) => Ok(
                (
                    ExprModel::Binary(Box::new(ExprModel::Number(0)), BinOp::Sub, Box::new(e)),
                    p,
                ),
            ),
            Err(f) => Err(f),
        }
    } else {
        grammar_primary(ts, pos)
    }
}

/// One precedence level: an operand of the next tighter level, then any
/// number of this level's operators, each with another operand, grouped to
/// the left. Level 0 is `unary`.
pub open spec fn grammar_level(ts: Seq<TokenModel>, pos: int, level: nat) -> Result<
    (ExprModel, int),
    (int, SyntaxFault),
>
    decreases ts.len() - pos, 2 * level + 2,
{
    if level == 0 {
        grammar_unary(ts, pos)
    } else {
        match forward(grammar_level(ts, pos, (level - 1) as nat), pos, ts.len()) {
            Ok((left, p)) => grammar_level_rest(ts, p, level, left),
            Err(f) => Err(f),
        }
    }
}

/// The operators and operands of one level that follow the operand `left`.
pub open spec fn grammar_level_rest(
    ts: Seq<TokenModel>,
    pos: int,
    level: nat,
    left: ExprModel,
) -> Result<(ExprModel, int), (int, SyntaxFault)>
    decreases ts.len() - pos, 2 * level + 1,
{
    match level_op(level, peek_at(ts, pos)) {
        Some(op) => if level == 0 {
            Ok((left, pos))
        } else {
            match forward(grammar_level(ts, pos + 1, (level - 1) as nat), pos + 1, ts.len()) {
                Ok((right, p)) => grammar_level_rest(
                    ts,
                    p,
                    level,
                    ExprModel::Binary(Box::new(left), op, Box::new(right)),
                ),
                Err(f) => Err(f),
            }
        },
        None => Ok((left, pos)),
    }
}

/// `expr := equality`
pub open spec fn grammar_expr(ts: Seq<TokenModel>, pos: int) -> Result<
    (ExprModel, int),
    (int, SyntaxFault),
>
    decreases ts.len() - pos, 11int,
{
    grammar_level(ts, pos, 4)
}

/// An expression followed by the token `t`.
pub open spec fn grammar_expr_then(ts: Seq<TokenModel>, pos: int, t: TokenModel) -> Result<
    (ExprModel, int),
    (int, SyntaxFault),
>
    decreases ts.len() - pos, 13int,
{
    match forward(grammar_expr(ts, pos), pos, ts.len()) {
        Ok((e, p)) => match expect_at(ts, p, t) {
            Ok(end) => Ok((e, end)),
            Err(f) => Err(f),
        },
        Err(f) => Err(f),
    }
}

/// `IDENT ("," IDENT)*`, appended to the names `acc` read so far.
pub open spec fn grammar_params(ts: Seq<TokenModel>, pos: int, acc: Seq<Seq<char>>) -> Result<
    (Seq<Seq<char>>, int),
    (int, SyntaxFault),
>
    decreases ts.len() - pos,
{
    match peek_at(ts, pos) {
        Some(TokenModel::Ident(name)) => if peek_at(ts, pos + 1) == Some(TokenModel::Comma) {
            grammar_params(ts, pos + 2, acc.push(name))
        } else {
            Ok((acc.push(name), pos + 1))
        },
        _ => Err((pos, SyntaxFault::ParamName)),
    }
}

/// `"(" (IDENT ("," IDENT)*)? ")"`
pub open spec fn grammar_param_list(ts: Seq<TokenModel>, pos: int) -> Result<
    (Seq<Seq<char>>, int),
    (int, SyntaxFault),
> {
    match expect_at(ts, pos, TokenModel::LParen) {
        Ok(p) => if peek_at(ts, p) == Some(TokenModel::RParen) {
            Ok((Seq::empty(), p + 1))
        } else {
            match grammar_params(ts, p, Seq::empty()) {
                Ok((names, p2)) => match expect_at(ts, p2, TokenModel::RParen) {
                    Ok(end) => Ok((names, end)),
                    Err(f) => Err(f),
                },
                Err(f) => Err(f),
            }
        },
        Err(f) => Err(f),
    }
}

/// `"(" expr ")"`, the condition of `if` and of the loops.
pub open spec fn grammar_condition(ts: Seq<TokenModel>, pos: int) -> Result<
    (ExprModel, int),
    (int, SyntaxFault),
> {
    match expect_at(ts, pos, TokenModel::LParen) {
        Ok(p) => grammar_expr_then(ts, p, TokenModel::RParen),
        Err(f) => Err(f),
    }
}

/// `let := "let" IDENT "=" expr ";"`
pub open spec fn grammar_let(ts: Seq<TokenModel>, pos: int) -> Result<
    (StmtModel, int),
    (int, SyntaxFault),
> {
    match expect_at(ts, pos, TokenModel::Let) {
        Ok(p) => match name_at(ts, p, SyntaxFault::LetName) {
            Ok((name, p2)) => match expect_at(ts, p2, TokenModel::Equal) {
                Ok(p3) => match grammar_expr_then(ts, p3, TokenModel::Semicolon) {
                    Ok((e, end)) => Ok((StmtModel::Let(name, e), end)),
                    Err(f) => Err(f),
                },
                Err(f) => Err(f),
            },
            Err(f) => Err(f),
        },
        Err(f) => Err(f),
    }
}

/// `return := "return" expr ";"`
pub open spec fn grammar_return(ts: Seq<TokenModel>, pos: int) -> Result<
    (StmtModel, int),
    (int, SyntaxFault),
> {
    match expect_at(ts, pos, TokenModel::Return) {
        Ok(p) => match grammar_expr_then(ts, p, TokenModel::Semicolon) {
            Ok((e, end)) => Ok((StmtModel::Return(e), end)),
            Err(f) => Err(f),
        },
        Err(f) => Err(f),
    }
}

/// `if := "if" "(" expr ")" block ("else" block)?`
pub open spec fn grammar_if(ts: Seq<TokenModel>, pos: int) -> Result<(StmtModel, int), (int, SyntaxFault)>
    decreases ts.len() - pos, 15int,
{
    match expect_at(ts, pos, TokenModel::If) {
        Ok(p) => match forward(grammar_condition(ts, p), p, ts.len()) {
            Ok((cond, p2)) => match forward(grammar_block(ts, p2), p2, ts.len()) {
                Ok((then_block, p3)) => if peek_at(ts, p3) == Some(TokenModel::Else) {
                    match grammar_block(ts, p3 + 1) {
                        Ok((else_block, end)) => Ok(
                            (StmtModel::If(cond, then_block, else_block), end),
                        ),
                        Err(f) => Err(f),
                    }
                } else {
                    Ok((StmtModel::If(cond, then_block, Seq::empty()), p3))
                },
                Err(f) => Err(f),
            },
            Err(f) => Err(f),
        },
        Err(f) => Err(f),
    }
}

/// `while := "while" "(" expr ")" block`
pub open spec fn grammar_while(ts: Seq<TokenModel>, pos: int) -> Result<
    (StmtModel, int),
    (int, SyntaxFault),
>
    decreases ts.len() - pos, 15int,
{
    match expect_at(ts, pos, TokenModel::While) {
        Ok(p) => match forward(grammar_condition(ts, p), p, ts.len()) {
            Ok((cond, p2)) => match grammar_block(ts, p2) {
                Ok((body, end)) => Ok((StmtModel::While(cond, body), end)),
                Err(f) => Err(f),
            },
            Err(f) => Err(f),
        },
        Err(f) => Err(f),
    }
}

/// `do_while := "do" block "while" "(" expr ")" ";"`
pub open spec fn grammar_do_while(ts: Seq<TokenModel>, pos: int) -> Result<
    (StmtModel, int),
    (int, SyntaxFault),
>
    decreases ts.len() - pos, 15int,
{
    match expect_at(ts, pos, TokenModel::Do) {
        Ok(p) => match grammar_block(ts, p) {
            Ok((body, p2)) => match expect_at(ts, p2, TokenModel::While) {
                Ok(p3) => match grammar_condition(ts, p3) {
                    Ok((cond, p4)) => match expect_at(ts, p4, TokenModel::Semicolon) {
                        Ok(end) => Ok((StmtModel::DoWhile(body, cond), end)),
                        Err(f) => Err(f),
                    },
                    Err(f) => Err(f),
                },
                Err(f) => Err(f),
            },
            Err(f) => Err(f),
        },
        Err(f) => Err(f),
    }
}

/// The head of a `for` loop behind its keyword:
/// `"(" IDENT "=" expr ";" expr ";" expr ")"`.
pub open spec fn grammar_for_head(ts: Seq<TokenModel>, pos: int) -> Result<
    ((Seq<char>, ExprModel, ExprModel, ExprModel), int),
    (int, SyntaxFault),
> {
    match expect_at(ts, pos, TokenModel::LParen) {
        Ok(p) => match name_at(ts, p, SyntaxFault::ForName) {
            Ok((var, p2)) => match expect_at(ts, p2, TokenModel::Equal) {
                Ok(p3) => match grammar_expr_then(ts, p3, TokenModel::Semicolon) {
                    Ok((start, p4)) => match grammar_expr_then(ts, p4, TokenModel::Semicolon) {
                        Ok((cond, p5)) => match grammar_expr_then(ts, p5, TokenModel::RParen) {
                            Ok((step, end)) => Ok(((var, start, cond, step), end)),
                            Err(f) => Err(f),
                        },
                        Err(f) => Err(f),
                    },
                    Err(f) => Err(f),
                },
                Err(f) => Err(f),
            },
            Err(f) => Err(f),
        },
        Err(f) => Err(f),
    }
}

/// `for := "for" "(" IDENT "=" expr ";" expr ";" expr ")" block`
pub open spec fn grammar_for(ts: Seq<TokenModel>, pos: int) -> Result<
    (StmtModel, int),
    (int, SyntaxFault),
>
    decreases ts.len() - pos, 15int,
{
    match expect_at(ts, pos, TokenModel::For) {
        Ok(p) => match forward(grammar_for_head(ts, p), p, ts.len()) {
            Ok((head, p2)) => match grammar_block(ts, p2) {
                Ok((body, end)) => Ok(
                    (StmtModel::For(head.0, head.1, head.2, head.3, body), end),
                ),
                Err(f) => Err(f),
            },
            Err(f) => Err(f),
        },
        Err(f) => Err(f),
    }
}

/// `fn_decl := "fn" IDENT "(" (IDENT ("," IDENT)*)? ")" block`
pub open spec fn grammar_fn_decl(ts: Seq<TokenModel>, pos: int) -> Result<
    (StmtModel, int),
    (int, SyntaxFault),
>
    decreases ts.len() - pos, 15int,
{
    match expect_at(ts, pos, TokenModel::Fn) {
        Ok(p) => match name_at(ts, p, SyntaxFault::FnName) {
            Ok((name, p2)) => match forward(grammar_param_list(ts, p2), p2, ts.len()) {
                Ok((params, p3)) => match grammar_block(ts, p3) {
                    Ok((body, end)) => Ok((StmtModel::FnDecl(name, params, body), end)),
                    Err(f) => Err(f),
                },
                Err(f) => Err(f),
            },
            Err(f) => Err(f),
        },
        Err(f) => Err(f),
    }
}

/// A statement that starts with the identifier `name` at `pos`: an
/// assignment where `=` follows, else the bare name as an expression
/// statement.
pub open spec fn grammar_ident_stmt(ts: Seq<TokenModel>, pos: int, name: Seq<char>) -> Result<
    (StmtModel, int),
    (int, SyntaxFault),
> {
    if peek_at(ts, pos + 1) == Some(TokenModel::Equal) {
        match grammar_expr_then(ts, pos + 2, TokenModel::Semicolon) {
            Ok((e, end)) => Ok((StmtModel::Assign(name, e), end)),
            Err(f) => Err(f),
        }
    } else {
        match expect_at(ts, pos + 1, TokenModel::Semicolon) {
            Ok(end) => Ok((StmtModel::Expr(ExprModel::Variable(name)), end)),
            Err(f) => Err(f),
        }
    }
}

/// One statement, chosen by its first token.
pub open spec fn grammar_stmt(ts: Seq<TokenModel>, pos: int) -> Result<
    (StmtModel, int),
    (int, SyntaxFault),
>
    decreases ts.len() - pos, 20int,
{
    match peek_at(ts, pos) {
        Some(TokenModel::Let) => grammar_let(ts, pos),
        Some(TokenModel::If) => grammar_if(ts, pos),
        Some(TokenModel::While) => grammar_while(ts, pos),
        Some(TokenModel::Do) => grammar_do_while(ts, pos),
        Some(TokenModel::For) => grammar_for(ts, pos),
        Some(TokenModel::Fn) => grammar_fn_decl(ts, pos),
        Some(TokenModel::Return) => grammar_return(ts, pos),
        Some(TokenModel::Ident(name)) => grammar_ident_stmt(ts, pos, name),
        _ => match grammar_expr_then(ts, pos, TokenModel::Semicolon) {
            Ok((e, end)) => Ok((StmtModel::Expr(e), end)),
            Err(f) => Err(f),
        },
    }
}

/// `block := "{" statement* "}"`
pub open spec fn grammar_block(ts: Seq<TokenModel>, pos: int) -> Result<
    (Seq<StmtModel>, int),
    (int, SyntaxFault),
>
    decreases ts.len() - pos, 31int,
{
    match expect_at(ts, pos, TokenModel::LBrace) {
        Ok(p) => grammar_block_items(ts, p, Seq::empty()),
        Err(f) => Err(f),
    }
}

/// The statements of a block up to and including its `}`, appended to the
/// statements `acc` read so far.
pub open spec fn grammar_block_items(
    ts: Seq<TokenModel>,
    pos: int,
    acc: Seq<StmtModel>,
) -> Result<(Seq<StmtModel>, int), (int, SyntaxFault)>
    decreases ts.len() - pos, 30int,
{
    if peek_at(ts, pos) == Some(TokenModel::RBrace) {
        Ok((acc, pos + 1))
    } else {
        match forward(grammar_stmt(ts, pos), pos, ts.len()) {
            Ok((s, p)) => grammar_block_items(ts, p, acc.push(s)),
            Err(f) => Err(f),
        }
    }
}

/// `program := statement*` from `pos` to the end of the tokens, appended to
/// the statements `acc` read so far.
pub open spec fn grammar_program(ts: Seq<TokenModel>, pos: int, acc: Seq<StmtModel>) -> Result<
    Seq<StmtModel>,
    (int, SyntaxFault),
>
    decreases ts.len() - pos,
{
    if peek_at(ts, pos) is None {
        Ok(acc)
    } else {
        match forward(grammar_stmt(ts, pos), pos, ts.len()) {
            Ok((s, p)) => grammar_program(ts, p, acc.push(s)),
            Err(f) => Err(f),
        }
    }
}

/// The outcome `r` of parsing from `pos`, where it succeeds, ends behind
/// `pos` and within the `len` tokens.
pub open spec fn advances<T>(r: Result<(T, int), (int, SyntaxFault)>, pos: int, len: nat) -> bool {
    r is Ok ==> pos < r->Ok_0.1 <= len
}

/// A successful `primary` consumes at least one token.
pub proof fn lemma_primary_advances(ts: Seq<TokenModel>, pos: int)
    requires
        0 <= pos,
    ensures
        advances(grammar_primary(ts, pos), pos, ts.len()),
    decreases ts.len() - pos, 0int,
{
    match peek_at(ts, pos) {
        Some(TokenModel::Ident(_)) => {
            if peek_at(ts, pos + 1) == Some(TokenModel::LParen) && peek_at(ts, pos + 2) != Some(
                TokenModel::RParen,
            ) {
                lemma_args_advances(ts, pos + 2, Seq::empty());
            }
        },
        Some(TokenModel::LParen) => {
            lemma_expr_then_advances(ts, pos + 1, TokenModel::RParen);
        },
        _ => {},
    }
}

/// A successful argument list consumes at least one token.
pub proof fn lemma_args_advances(ts: Seq<TokenModel>, pos: int, acc: Seq<ExprModel>)
    requires
        0 <= pos,
    ensures
        advances(grammar_args(ts, pos, acc), pos, ts.len()),
    decreases ts.len() - pos, 12int,
{
    lemma_expr_advances(ts, pos);
    match forward(grammar_expr(ts, pos), pos, ts.len()) {
        Ok((e, p)) => {
            if peek_at(ts, p) == Some(TokenModel::Comma) {
                lemma_args_advances(ts, p + 1, acc.push(e));
            }
        },
        Err(_) => {},
    }
}

/// A successful `unary` consumes at least one token.
pub proof fn lemma_unary_advances(ts: Seq<TokenModel>, pos: int)
    requires
        0 <= pos,
    ensures
        advances(grammar_unary(ts, pos), pos, ts.len()),
    decreases ts.len() - pos, 1int,
{
    if peek_at(ts, pos) == Some(TokenModel::Minus) {
        lemma_primary_advances(ts, pos + 1);
    } else {
        lemma_primary_advances(ts, pos);
    }
}

/// A successful precedence level consumes at least one token.
pub proof fn lemma_level_advances(ts: Seq<TokenModel>, pos: int, level: nat)
    requires
        0 <= pos,
    ensures
        advances(grammar_level(ts, pos, level), pos, ts.len()),
    decreases ts.len() - pos, 2 * level + 2,
{
    if level == 0 {
        lemma_unary_advances(ts, pos);
    } else {
        lemma_level_advances(ts, pos, (level - 1) as nat);
        match forward(grammar_level(ts, pos, (level - 1) as nat), pos, ts.len()) {
            Ok((left, p)) => {
                lemma_level_rest_stays(ts, p, level, left);
            },
            Err(_) => {},
        }
    }
}

/// The operators and operands behind an operand end at or behind their
/// start and within the tokens.
pub proof fn lemma_level_rest_stays(ts: Seq<TokenModel>, pos: int, level: nat, left: ExprModel)
    requires
        0 <= pos <= ts.len(),
    ensures
        grammar_level_rest(ts, pos, level, left) is Ok ==> pos <= grammar_level_rest(
            ts,
            pos,
            level,
            left,
        )->Ok_0.1 <= ts.len(),
    decreases ts.len() - pos, 2 * level + 1,
{
    match level_op(level, peek_at(ts, pos)) {
        Some(op) => {
            if level != 0 {
                lemma_level_advances(ts, pos + 1, (level - 1) as nat);
                match forward(
                    grammar_level(ts, pos + 1, (level - 1) as nat),
                    pos + 1,
                    ts.len(),
                ) {
                    Ok((right, p)) => {
                        lemma_level_rest_stays(
                            ts,
                            p,
                            level,
                            ExprModel::Binary(Box::new(left), op, Box::new(right)),
                        );
                    },
                    Err(_) => {},
                }
            }
        },
        None => {},
    }
}

/// A successful expression consumes at least one token.
pub proof fn lemma_expr_advances(ts: Seq<TokenModel>, pos: int)
    requires
        0 <= pos,
    ensures
        advances(grammar_expr(ts, pos), pos, ts.len()),
    decreases ts.len() - pos, 11int,
{
    lemma_level_advances(ts, pos, 4);
}

/// A successful expression with its closing token consumes at least two
/// tokens.
pub proof fn lemma_expr_then_advances(ts: Seq<TokenModel>, pos: int, t: TokenModel)
    requires
        0 <= pos,
    ensures
        advances(grammar_expr_then(ts, pos, t), pos, ts.len()),
    decreases ts.len() - pos, 13int,
{
    lemma_expr_advances(ts, pos);
}

/// A successful parameter name list consumes at least one token.
pub proof fn lemma_params_advance(ts: Seq<TokenModel>, pos: int, acc: Seq<Seq<char>>)
    requires
        0 <= pos,
    ensures
        advances(grammar_params(ts, pos, acc), pos, ts.len()),
    decreases ts.len() - pos,
{
    match peek_at(ts, pos) {
        Some(TokenModel::Ident(name)) => {
            if peek_at(ts, pos + 1) == Some(TokenModel::Comma) {
                lemma_params_advance(ts, pos + 2, acc.push(name));
            }
        },
        _ => {},
    }
}

/// A successful statement consumes at least one token.
pub proof fn lemma_stmt_advances(ts: Seq<TokenModel>, pos: int)
    requires
        0 <= pos,
    ensures
        advances(grammar_stmt(ts, pos), pos, ts.len()),
    decreases ts.len() - pos, 20int,
{
    match peek_at(ts, pos) {
        Some(TokenModel::Let) => {
            lemma_expr_then_advances(ts, pos + 3, TokenModel::Semicolon);
        },
        Some(TokenModel::If) => {
            lemma_expr_then_advances(ts, pos + 2, TokenModel::RParen);
            match forward(grammar_condition(ts, pos + 1), pos + 1, ts.len()) {
                Ok((_, p2)) => {
                    lemma_block_advances(ts, p2);
                    match forward(grammar_block(ts, p2), p2, ts.len()) {
                        Ok((_, p3)) => {
                            if peek_at(ts, p3) == Some(TokenModel::Else) {
                                lemma_block_advances(ts, p3 + 1);
                            }
                        },
                        Err(_) => {},
                    }
                },
                Err(_) => {},
            }
        },
        Some(TokenModel::While) => {
            match forward(grammar_condition(ts, pos + 1), pos + 1, ts.len()) {
                Ok((_, p2)) => {
                    lemma_block_advances(ts, p2);
                },
                Err(_) => {},
            }
        },
        Some(TokenModel::Do) => {
            lemma_block_advances(ts, pos + 1);
            match grammar_block(ts, pos + 1) {
                Ok((_, p2)) => {
                    lemma_expr_then_advances(ts, p2 + 2, TokenModel::RParen);
                },
                Err(_) => {},
            }
        },
        Some(TokenModel::For) => {
            match forward(grammar_for_head(ts, pos + 1), pos + 1, ts.len()) {
                Ok((_, p2)) => {
                    lemma_block_advances(ts, p2);
                },
                Err(_) => {},
            }
        },
        Some(TokenModel::Fn) => {
            match forward(grammar_param_list(ts, pos + 2), pos + 2, ts.len()) {
                Ok((_, p3)) => {
                    lemma_block_advances(ts, p3);
                },
                Err(_) => {},
            }
        },
        Some(TokenModel::Return) => {
            lemma_expr_then_advances(ts, pos + 1, TokenModel::Semicolon);
        },
        Some(TokenModel::Ident(_)) => {
            lemma_expr_then_advances(ts, pos + 2, TokenModel::Semicolon);
        },
        _ => {
            lemma_expr_then_advances(ts, pos, TokenModel::Semicolon);
        },
    }
}

/// A successful block consumes at least its two braces.
pub proof fn lemma_block_advances(ts: Seq<TokenModel>, pos: int)
    requires
        0 <= pos,
    ensures
        advances(grammar_block(ts, pos), pos, ts.len()),
    decreases ts.len() - pos, 31int,
{
    if peek_at(ts, pos) == Some(TokenModel::LBrace) {
        lemma_block_items_advance(ts, pos + 1, Seq::empty());
    }
}

/// The statements of a block and its `}` consume at least one token.
pub proof fn lemma_block_items_advance(ts: Seq<TokenModel>, pos: int, acc: Seq<StmtModel>)
    requires
        0 <= pos,
    ensures
        advances(grammar_block_items(ts, pos, acc), pos, ts.len()),
    decreases ts.len() - pos, 30int,
{
    if peek_at(ts, pos) != Some(TokenModel::RBrace) {
        lemma_stmt_advances(ts, pos);
        match forward(grammar_stmt(ts, pos), pos, ts.len()) {
            Ok((s, p)) => {
                lemma_block_items_advance(ts, p, acc.push(s));
            },
            Err(_) => {},
        }
    }
}

/// Every rule of the grammar consumes a token where it succeeds, so the
/// guard `forward` changes no outcome.
pub proof fn lemma_forward_changes_nothing(ts: Seq<TokenModel>, pos: int, level: nat)
    requires
        0 <= pos,
    ensures
        forward(grammar_expr(ts, pos), pos, ts.len()) == grammar_expr(ts, pos),
        forward(grammar_level(ts, pos, level), pos, ts.len()) == grammar_level(ts, pos, level),
        forward(grammar_stmt(ts, pos), pos, ts.len()) == grammar_stmt(ts, pos),
        forward(grammar_block(ts, pos), pos, ts.len()) == grammar_block(ts, pos),
        forward(grammar_condition(ts, pos), pos, ts.len()) == grammar_condition(ts, pos),
        forward(grammar_for_head(ts, pos), pos, ts.len()) == grammar_for_head(ts, pos),
        forward(grammar_param_list(ts, pos), pos, ts.len()) == grammar_param_list(ts, pos),
{
    lemma_expr_advances(ts, pos);
    lemma_level_advances(ts, pos, level);
    lemma_stmt_advances(ts, pos);
    lemma_block_advances(ts, pos);
    lemma_expr_then_advances(ts, pos + 1, TokenModel::RParen);
    lemma_params_advance(ts, pos + 1, Seq::empty());
    lemma_expr_then_advances(ts, pos + 3, TokenModel::Semicolon);
    match grammar_expr_then(ts, pos + 3, TokenModel::Semicolon) {
        Ok((_, p4)) => {
            lemma_expr_then_advances(ts, p4, TokenModel::Semicolon);
            match grammar_expr_then(ts, p4, TokenModel::Semicolon) {
                Ok((_, p5)) => {
                    lemma_expr_then_advances(ts, p5, TokenModel::RParen);
                },
                Err(_) => {},
            }
        },
        Err(_) => {},
    }
}

/// The failure `e` reports the syntax fault `f`.
pub open spec fn reports(e: CompilerError, f: SyntaxFault) -> bool {
    e is SyntaxError && e.spec_message() == fault_text(f)
}

/// The parser's answer `r`, ending at `end`, is what the grammar `g` gives:
/// the same tree and end where it succeeds, the same fault at the same
/// position where it fails.
pub open spec fn expr_agrees(
    r: Result<Expr, CompilerError>,
    end: int,
    g: Result<(ExprModel, int), (int, SyntaxFault)>,
) -> bool {
    match r {
        Ok(e) => g == Ok::<(ExprModel, int), (int, SyntaxFault)>((e@, end)),
        Err(err) => g is Err && g->Err_0.0 == end && reports(err, g->Err_0.1),
    }
}

/// The parser's answer `r`, ending at `end`, is what the grammar `g` gives:
/// the same tree and end where it succeeds, the same fault at the same
/// position where it fails.
pub open spec fn stmt_agrees(
    r: Result<Stmt, CompilerError>,
    end: int,
    g: Result<(StmtModel, int), (int, SyntaxFault)>,
) -> bool {
    match r {
        Ok(s) => g == Ok::<(StmtModel, int), (int, SyntaxFault)>((s@, end)),
        Err(err) => g is Err && g->Err_0.0 == end && reports(err, g->Err_0.1),
    }
}

/// The parser's answer `r`, ending at `end`, is what the grammar `g` gives:
/// the same tree and end where it succeeds, the same fault at the same
/// position where it fails.
pub open spec fn block_agrees(
    r: Result<Vec<Stmt>, CompilerError>,
    end: int,
    g: Result<(Seq<StmtModel>, int), (int, SyntaxFault)>,
) -> bool {
    match r {
        Ok(b) => g == Ok::<(Seq<StmtModel>, int), (int, SyntaxFault)>((stmts_model(b@), end)),
        Err(err) => g is Err && g->Err_0.0 == end && reports(err, g->Err_0.1),
    }
}

/// The failure that reports `Expected(expected, found)`.
fn expected_error(expected: &Token, found: Option<&Token>) -> (e: CompilerError)
    ensures
        reports(
            e,
            SyntaxFault::Expected(
                expected@,
                match found {
                    Some(t) => Some(t@),
                    None => None,
                },
            ),
        ),
{
    let want = render_token(expected);
    let got = render_found(found);
    let msg = String::from_str("Expected ").concat(want.as_str()).concat(", found ").concat(
        got.as_str(),
    );
    CompilerError::SyntaxError(msg)
}

/// The failure that reports `Unexpected(found)`.
fn unexpected_error(found: Option<&Token>) -> (e: CompilerError)
    ensures
        reports(
            e,
            SyntaxFault::Unexpected(
                match found {
                    Some(t) => Some(t@),
                    None => None,
                },
            ),
        ),
{
    let got = render_found(found);
    let msg = String::from_str("Unexpected token ").concat(got.as_str()).concat(" in expression");
    CompilerError::SyntaxError(msg)
}

/// A parser over one token sequence.
pub struct Parser {
    tokens: Vec<Token>,
    pos: usize,
}

impl Parser {
    /// The tokens being parsed.
    pub closed spec fn tokens(&self) -> Seq<TokenModel> {
        tokens_model(self.tokens@)
    }

    /// The position of the next unread token.
    pub closed spec fn position(&self) -> int {
        self.pos as int
    }

    /// The position lies within the tokens or at their end.
    pub closed spec fn wf(&self) -> bool {
        self.pos <= self.tokens.len()
    }

    /// A parser at the start of `tokens`.
    pub fn new(tokens: Vec<Token>) -> (p: Self)
        ensures
            p.wf(),
            p.tokens() == tokens_model(tokens@),
            p.position() == 0,
    {
        Parser { tokens, pos: 0 }
    }

    /// The next unread token, if any.
    fn peek(&self) -> (r: Option<&Token>)
        requires
            self.wf(),
        ensures
            match r {
                Some(t) => peek_at(self.tokens(), self.position()) == Some(t@),
                None => peek_at(self.tokens(), self.position()) is None,
            },
    {
        if self.pos < self.tokens.len() {
            Some(&self.tokens[self.pos])
        } else {
            None
        }
    }

    /// Whether the next unread token is `t`.
    fn at(&self, t: &Token) -> (r: bool)
        requires
            self.wf(),
        ensures
            r == (peek_at(self.tokens(), self.position()) == Some(t@)),
    {
        match self.peek() {
            Some(found) => found.same(t),
            None => false,
        }
    }

    /// Steps over one token.
    fn advance(&mut self)
        requires
            old(self).position() < old(self).tokens().len(),
        ensures
            final(self).tokens() == old(self).tokens(),
            final(self).position() == old(self).position() + 1,
            final(self).wf(),
    {
        assert(self.tokens.len() <= usize::MAX);
        self.pos += 1;
    }

    /// Requires `expected` as the next token and steps over it.
    fn expect(&mut self, expected: Token) -> (r: Result<(), CompilerError>)
        requires
            old(self).wf(),
        ensures
            final(self).wf(),
            final(self).tokens() == old(self).tokens(),
            match r {
                Ok(_) => expect_at(old(self).tokens(), old(self).position(), expected@) == Ok::<
                    int,
                    (int, SyntaxFault),
                >(final(self).position()),
                Err(e) => reports(
                    e,
                    SyntaxFault::Expected(
                        expected@,
                        peek_at(old(self).tokens(), old(self).position()),
                    ),
                ) && expect_at(old(self).tokens(), old(self).position(), expected@) is Err
                    && final(self).position() == old(self).position(),
            },
    {
        if self.at(&expected) {
            self.advance();
            Ok(())
        } else {
            Err(expected_error(&expected, self.peek()))
        }
    }

    /// Requires an identifier as the next token and steps over it.
    fn name(&mut self) -> (r: Option<String>)
        requires
            old(self).wf(),
        ensures
            final(self).wf(),
            final(self).tokens() == old(self).tokens(),
            match r {
                Some(name) => peek_at(old(self).tokens(), old(self).position()) == Some(
                    TokenModel::Ident(name@),
                ) && final(self).position() == old(self).position() + 1,
                None => !(peek_at(old(self).tokens(), old(self).position()) matches Some(
                    TokenModel::Ident(_),
                )) && final(self).position() == old(self).position(),
            },
    {
        let name = match self.peek() {
            Some(Token::Ident(name)) => name.clone(),
            _ => {
                return None;
            },
        };
        self.advance();
        Some(name)
    }

    /// Parses an expression and the token `t` behind it.
    fn parse_expr_then(&mut self, t: Token) -> (r: Result<Expr, CompilerError>)
        requires
            old(self).wf(),
        ensures
            final(self).wf(),
            final(self).tokens() == old(self).tokens(),
            r is Ok ==> final(self).position() > old(self).position(),
            expr_agrees(
                r,
                final(self).position(),
                grammar_expr_then(old(self).tokens(), old(self).position(), t@),
            ),
        decreases old(self).tokens().len() - old(self).position(), 13int,
    {
        let e = self.parse_expr()?;
        self.expect(t)?;
        Ok(e)
    }

    /// Parses `"(" expr ")"`.
    fn parse_condition(&mut self) -> (r: Result<Expr, CompilerError>)
        requires
            old(self).wf(),
        ensures
            final(self).wf(),
            final(self).tokens() == old(self).tokens(),
            r is Ok ==> final(self).position() > old(self).position(),
            expr_agrees(
                r,
                final(self).position(),
                grammar_condition(old(self).tokens(), old(self).position()),
            ),
        decreases old(self).tokens().len() - old(self).position(), 14int,
    {
        self.expect(Token::LParen)?;
        self.parse_expr_then(Token::RParen)
    }

    /// Parses a whole program: statements until the tokens are exhausted.
    ///
    /// Succeeds exactly when the unread tokens spell a sequence of
    /// statements, and then returns them in order; otherwise reports the
    /// first fault and stops at the token that was refused.
    pub fn parse_program(&mut self) -> (r: Result<Vec<Stmt>, CompilerError>)
        requires
            old(self).wf(),
        ensures
            final(self).wf(),
            final(self).tokens() == old(self).tokens(),
            match r {
                Ok(stmts) => {
                    &&& grammar_program(old(self).tokens(), old(self).position(), Seq::empty())
                        == Ok::<Seq<StmtModel>, (int, SyntaxFault)>(stmts_model(stmts@))
                    &&& final(self).position() == old(self).tokens().len()
                },
                Err(e) => {
                    &&& grammar_program(
                        old(self).tokens(),
                        old(self).position(),
                        Seq::empty(),
                    ) is Err
                    &&& grammar_program(
                        old(self).tokens(),
                        old(self).position(),
                        Seq::empty(),
                    )->Err_0.0 == final(self).position()
                    &&& reports(
                        e,
                        grammar_program(
                            old(self).tokens(),
                            old(self).position(),
                            Seq::empty(),
                        )->Err_0.1,
                    )
                },
            },
    {
        let ghost ts = self.tokens();
        let ghost start = self.position();
        let mut stmts: Vec<Stmt> = Vec::new();
        assert(stmts_model(stmts@) =~= Seq::<StmtModel>::empty());
        while self.pos < self.tokens.len()
            invariant
                self.wf(),
                self.tokens() == ts,
                ts == old(self).tokens(),
                start == old(self).position(),
                grammar_program(ts, start, Seq::empty()) == grammar_program(
                    ts,
                    self.position(),
                    stmts_model(stmts@),
                ),
            decreases ts.len() - self.pos,
        {
            let ghost before = stmts@;
            let s = self.parse_stmt()?;
            stmts.push(s);
            assert(stmts_model(stmts@) =~= stmts_model(before).push(s@));
        }
        Ok(stmts)
    }

    /// Parses one statement.
    #[verifier::rlimit(60)]
    fn parse_stmt(&mut self) -> (r: Result<Stmt, CompilerError>)
        requires
            old(self).wf(),
        ensures
            final(self).wf(),
            final(self).tokens() == old(self).tokens(),
            r is Ok ==> final(self).position() > old(self).position(),
            stmt_agrees(
                r,
                final(self).position(),
                grammar_stmt(old(self).tokens(), old(self).position()),
            ),
        decreases old(self).tokens().len() - old(self).position(), 20int,
    {
        let head = match self.peek() {
            Some(t) => Some(t.duplicate()),
            None => None,
        };
        match head {
            Some(Token::Let) => self.parse_let(),
            Some(Token::If) => self.parse_if(),
            Some(Token::While) => self.parse_while(),
            Some(Token::Do) => self.parse_do_while(),
            Some(Token::For) => self.parse_for(),
            Some(Token::Fn) => self.parse_fn_decl(),
            Some(Token::Return) => self.parse_return(),
            Some(Token::Ident(name)) => {
                self.advance();
                if self.at(&Token::Equal) {
                    self.advance();
                    let expr = self.parse_expr_then(Token::Semicolon)?;
                    Ok(Stmt::Assign(name, expr))
                } else {
                    self.expect(Token::Semicolon)?;
                    Ok(Stmt::Expr(Expr::Variable(name)))
                }
            },
            _ => {
                let expr = self.parse_expr_then(Token::Semicolon)?;
                Ok(Stmt::Expr(expr))
            },
        }
    }

    /// Parses a `let` statement.
    fn parse_let(&mut self) -> (r: Result<Stmt, CompilerError>)
        requires
            old(self).wf(),
        ensures
            final(self).wf(),
            final(self).tokens() == old(self).tokens(),
            r is Ok ==> final(self).position() > old(self).position(),
            stmt_agrees(
                r,
                final(self).position(),
                grammar_let(old(self).tokens(), old(self).position()),
            ),
        decreases old(self).tokens().len() - old(self).position(), 15int,
    {
        self.expect(Token::Let)?;
        let name = match self.name() {
            Some(name) => name,
            None => {
                return Err(
                    CompilerError::SyntaxError(String::from_str("Expected identifier after let")),
                );
            },
        };
        self.expect(Token::Equal)?;
        let expr = self.parse_expr_then(Token::Semicolon)?;
        Ok(Stmt::Let(name, expr))
    }

    /// Parses an `if` statement with its optional `else` block.
    #[verifier::rlimit(60)]
    fn parse_if(&mut self) -> (r: Result<Stmt, CompilerError>)
        requires
            old(self).wf(),
        ensures
            final(self).wf(),
            final(self).tokens() == old(self).tokens(),
            r is Ok ==> final(self).position() > old(self).position(),
            stmt_agrees(
                r,
                final(self).position(),
                grammar_if(old(self).tokens(), old(self).position()),
            ),
        decreases old(self).tokens().len() - old(self).position(), 15int,
    {
        self.expect(Token::If)?;
        let cond = self.parse_condition()?;
        let then_block = self.parse_block()?;
        let else_block = if self.at(&Token::Else) {
            self.advance();
            self.parse_block()?
        } else {
            Vec::new()
        };
        proof {
            lemma_block_model(then_block);
            lemma_block_model(else_block);
            assert(stmts_model(Seq::<Stmt>::empty()) =~= Seq::<StmtModel>::empty());
        }
        Ok(Stmt::If(cond, then_block, else_block))
    }

    /// Parses a `while` loop.
    fn parse_while(&mut self) -> (r: Result<Stmt, CompilerError>)
        requires
            old(self).wf(),
        ensures
            final(self).wf(),
            final(self).tokens() == old(self).tokens(),
            r is Ok ==> final(self).position() > old(self).position(),
            stmt_agrees(
                r,
                final(self).position(),
                grammar_while(old(self).tokens(), old(self).position()),
            ),
        decreases old(self).tokens().len() - old(self).position(), 15int,
    {
        self.expect(Token::While)?;
        let cond = self.parse_condition()?;
        let body = self.parse_block()?;
        proof {
            lemma_block_model(body);
        }
        Ok(Stmt::While(cond, body))
    }

    /// Parses a `do .. while` loop.
    #[verifier::rlimit(60)]
    fn parse_do_while(&mut self) -> (r: Result<Stmt, CompilerError>)
        requires
            old(self).wf(),
        ensures
            final(self).wf(),
            final(self).tokens() == old(self).tokens(),
            r is Ok ==> final(self).position() > old(self).position(),
            stmt_agrees(
                r,
                final(self).position(),
                grammar_do_while(old(self).tokens(), old(self).position()),
            ),
        decreases old(self).tokens().len() - old(self).position(), 15int,
    {
        self.expect(Token::Do)?;
        let body = self.parse_block()?;
        self.expect(Token::While)?;
        let cond = self.parse_condition()?;
        self.expect(Token::Semicolon)?;
        proof {
            lemma_block_model(body);
        }
        Ok(Stmt::DoWhile(body, cond))
    }

    /// Parses a `for` loop.
    #[verifier::rlimit(60)]
    fn parse_for(&mut self) -> (r: Result<Stmt, CompilerError>)
        requires
            old(self).wf(),
        ensures
            final(self).wf(),
            final(self).tokens() == old(self).tokens(),
            r is Ok ==> final(self).position() > old(self).position(),
            stmt_agrees(
                r,
                final(self).position(),
                grammar_for(old(self).tokens(), old(self).position()),
            ),
        decreases old(self).tokens().len() - old(self).position(), 15int,
    {
        self.expect(Token::For)?;
        self.expect(Token::LParen)?;
        let var = match self.name() {
            Some(name) => name,
            None => {
                return Err(
                    CompilerError::SyntaxError(
                        String::from_str("Expected identifier in for loop"),
                    ),
                );
            },
        };
        self.expect(Token::Equal)?;
        let start = self.parse_expr_then(Token::Semicolon)?;
        let cond = self.parse_expr_then(Token::Semicolon)?;
        let step = self.parse_expr_then(Token::RParen)?;
        let body = self.parse_block()?;
        proof {
            lemma_block_model(body);
        }
        Ok(Stmt::For(var, start, cond, step, body))
    }

    /// Parses a parameter list in parentheses.
    #[verifier::rlimit(60)]
    fn parse_param_list(&mut self) -> (r: Result<Vec<String>, CompilerError>)
        requires
            old(self).wf(),
        ensures
            final(self).wf(),
            final(self).tokens() == old(self).tokens(),
            r is Ok ==> final(self).position() > old(self).position(),
            match r {
                Ok(names) => grammar_param_list(old(self).tokens(), old(self).position()) == Ok::<
                    (Seq<Seq<char>>, int),
                    (int, SyntaxFault),
                >((names_model(names@), final(self).position())),
                Err(e) => {
                    &&& grammar_param_list(old(self).tokens(), old(self).position()) is Err
                    &&& grammar_param_list(old(self).tokens(), old(self).position())->Err_0.0
                        == final(self).position()
                    &&& reports(
                        e,
                        grammar_param_list(old(self).tokens(), old(self).position())->Err_0.1,
                    )
                },
            },
    {
        let ghost ts = self.tokens();
        self.expect(Token::LParen)?;
        let mut params: Vec<String> = Vec::new();
        assert(names_model(params@) =~= Seq::<Seq<char>>::empty());
        if !self.at(&Token::RParen) {
            let ghost first = self.position();
            let mut more = true;
            while more
                invariant
                    self.wf(),
                    self.tokens() == ts,
                    ts == old(self).tokens(),
                    first == old(self).position() + 1,
                    peek_at(ts, first - 1) == Some(TokenModel::LParen),
                    peek_at(ts, first) != Some(TokenModel::RParen),
                    first <= self.position(),
                    !more ==> first < self.position(),
                    grammar_params(ts, first, Seq::empty()) == if more {
                        grammar_params(ts, self.position(), names_model(params@))
                    } else {
                        Ok::<(Seq<Seq<char>>, int), (int, SyntaxFault)>(
                            (names_model(params@), self.position()),
                        )
                    },
                decreases ts.len() - self.position(), (if more { 1int } else { 0int }),
            {
                let ghost before = params@;
                match self.name() {
                    Some(param) => {
                        params.push(param);
                        assert(names_model(params@) =~= names_model(before).push(param@));
                    },
                    None => {
                        return Err(
                            CompilerError::SyntaxError(String::from_str("Expected parameter name")),
                        );
                    },
                }
                if self.at(&Token::Comma) {
                    self.advance();
                } else {
                    more = false;
                }
            }
        }
        self.expect(Token::RParen)?;
        Ok(params)
    }

    /// Parses a function declaration.
    #[verifier::rlimit(60)]
    fn parse_fn_decl(&mut self) -> (r: Result<Stmt, CompilerError>)
        requires
            old(self).wf(),
        ensures
            final(self).wf(),
            final(self).tokens() == old(self).tokens(),
            r is Ok ==> final(self).position() > old(self).position(),
            stmt_agrees(
                r,
                final(self).position(),
                grammar_fn_decl(old(self).tokens(), old(self).position()),
            ),
        decreases old(self).tokens().len() - old(self).position(), 15int,
    {
        self.expect(Token::Fn)?;
        let name = match self.name() {
            Some(name) => name,
            None => {
                return Err(CompilerError::SyntaxError(String::from_str("Expected function name")));
            },
        };
        let params = self.parse_param_list()?;
        let body = self.parse_block()?;
        proof {
            lemma_block_model(body);
        }
        Ok(Stmt::FnDecl(name, params, body))
    }

    /// Parses a `return` statement.
    fn parse_return(&mut self) -> (r: Result<Stmt, CompilerError>)
        requires
            old(self).wf(),
        ensures
            final(self).wf(),
            final(self).tokens() == old(self).tokens(),
            r is Ok ==> final(self).position() > old(self).position(),
            stmt_agrees(
                r,
                final(self).position(),
                grammar_return(old(self).tokens(), old(self).position()),
            ),
        decreases old(self).tokens().len() - old(self).position(), 15int,
    {
        self.expect(Token::Return)?;
        let expr = self.parse_expr_then(Token::Semicolon)?;
        Ok(Stmt::Return(expr))
    }

    /// Parses a block in braces.
    #[verifier::rlimit(60)]
    #[verifier::loop_isolation(false)]
    fn parse_block(&mut self) -> (r: Result<Vec<Stmt>, CompilerError>)
        requires
            old(self).wf(),
        ensures
            final(self).wf(),
            final(self).tokens() == old(self).tokens(),
            r is Ok ==> final(self).position() > old(self).position(),
            block_agrees(
                r,
                final(self).position(),
                grammar_block(old(self).tokens(), old(self).position()),
            ),
        decreases old(self).tokens().len() - old(self).position(), 31int,
    {
        let ghost ts = self.tokens();
        self.expect(Token::LBrace)?;
        let ghost first = self.position();
        let mut stmts: Vec<Stmt> = Vec::new();
        assert(stmts_model(stmts@) =~= Seq::<StmtModel>::empty());
        while !self.at(&Token::RBrace)
            invariant
                self.wf(),
                self.tokens() == ts,
                first <= self.position(),
                grammar_block_items(ts, first, Seq::empty()) == grammar_block_items(
                    ts,
                    self.position(),
                    stmts_model(stmts@),
                ),
            decreases ts.len() - self.position(),
        {
            let ghost before = stmts@;
            let s = self.parse_stmt()?;
            stmts.push(s);
            assert(stmts_model(stmts@) =~= stmts_model(before).push(s@));
        }
        self.expect(Token::RBrace)?;
        Ok(stmts)
    }

    /// Parses an expression.
    fn parse_expr(&mut self) -> (r: Result<Expr, CompilerError>)
        requires
            old(self).wf(),
        ensures
            final(self).wf(),
            final(self).tokens() == old(self).tokens(),
            r is Ok ==> final(self).position() > old(self).position(),
            expr_agrees(
                r,
                final(self).position(),
                grammar_expr(old(self).tokens(), old(self).position()),
            ),
        decreases old(self).tokens().len() - old(self).position(), 11int,
    {
        self.parse_equality()
    }

    /// Parses a chain of `==` and `!=`.
    #[verifier::loop_isolation(false)]
    fn parse_equality(&mut self) -> (r: Result<Expr, CompilerError>)
        requires
            old(self).wf(),
        ensures
            final(self).wf(),
            final(self).tokens() == old(self).tokens(),
            r is Ok ==> final(self).position() > old(self).position(),
            expr_agrees(
                r,
                final(self).position(),
                grammar_level(old(self).tokens(), old(self).position(), 4),
            ),
        decreases old(self).tokens().len() - old(self).position(), 10int,
    {
        let ghost ts = self.tokens();
        let ghost start = self.position();
        let mut expr = self.parse_comparison()?;
        loop
            invariant
                self.wf(),
                self.tokens() == ts,
                start < self.position(),
                grammar_level(ts, start, 4) == grammar_level_rest(ts, self.position(), 4, expr@),
            decreases ts.len() - self.position(),
        {
            let op = match self.peek() {
                Some(Token::Eq) => BinOp::Eq,
                Some(Token::Neq) => BinOp::Neq,
                _ => {
                    return Ok(expr);
                },
            };
            self.advance();
            let right = self.parse_comparison()?;
            expr = Expr::Binary(Box::new(expr), op, Box::new(right));
        }
    }

    /// Parses a chain of `>` and `<`.
    #[verifier::loop_isolation(false)]
    fn parse_comparison(&mut self) -> (r: Result<Expr, CompilerError>)
        requires
            old(self).wf(),
        ensures
            final(self).wf(),
            final(self).tokens() == old(self).tokens(),
            r is Ok ==> final(self).position() > old(self).position(),
            expr_agrees(
                r,
                final(self).position(),
                grammar_level(old(self).tokens(), old(self).position(), 3),
            ),
        decreases old(self).tokens().len() - old(self).position(), 8int,
    {
        let ghost ts = self.tokens();
        let ghost start = self.position();
        let mut expr = self.parse_term()?;
        loop
            invariant
                self.wf(),
                self.tokens() == ts,
                start < self.position(),
                grammar_level(ts, start, 3) == grammar_level_rest(ts, self.position(), 3, expr@),
            decreases ts.len() - self.position(),
        {
            let op = match self.peek() {
                Some(Token::Gt) => BinOp::Gt,
                Some(Token::Lt) => BinOp::Lt,
                _ => {
                    return Ok(expr);
                },
            };
            self.advance();
            let right = self.parse_term()?;
            expr = Expr::Binary(Box::new(expr), op, Box::new(right));
        }
    }

    /// Parses a chain of `+` and `-`.
    #[verifier::loop_isolation(false)]
    fn parse_term(&mut self) -> (r: Result<Expr, CompilerError>)
        requires
            old(self).wf(),
        ensures
            final(self).wf(),
            final(self).tokens() == old(self).tokens(),
            r is Ok ==> final(self).position() > old(self).position(),
            expr_agrees(
                r,
                final(self).position(),
                grammar_level(old(self).tokens(), old(self).position(), 2),
            ),
        decreases old(self).tokens().len() - old(self).position(), 6int,
    {
        let ghost ts = self.tokens();
        let ghost start = self.position();
        let mut expr = self.parse_factor()?;
        loop
            invariant
                self.wf(),
                self.tokens() == ts,
                start < self.position(),
                grammar_level(ts, start, 2) == grammar_level_rest(ts, self.position(), 2, expr@),
            decreases ts.len() - self.position(),
        {
            let op = match self.peek() {
                Some(Token::Plus) => BinOp::Add,
                Some(Token::Minus) => BinOp::Sub,
                _ => {
                    return Ok(expr);
                },
            };
            self.advance();
            let right = self.parse_factor()?;
            expr = Expr::Binary(Box::new(expr), op, Box::new(right));
        }
    }

    /// Parses a chain of `*` and `/`.
    #[verifier::loop_isolation(false)]
    fn parse_factor(&mut self) -> (r: Result<Expr, CompilerError>)
        requires
            old(self).wf(),
        ensures
            final(self).wf(),
            final(self).tokens() == old(self).tokens(),
            r is Ok ==> final(self).position() > old(self).position(),
            expr_agrees(
                r,
                final(self).position(),
                grammar_level(old(self).tokens(), old(self).position(), 1),
            ),
        decreases old(self).tokens().len() - old(self).position(), 4int,
    {
        let ghost ts = self.tokens();
        let ghost start = self.position();
        let mut expr = self.parse_unary()?;
        assert(grammar_level(ts, start, 0) == grammar_unary(ts, start));
        loop
            invariant
                self.wf(),
                self.tokens() == ts,
                start < self.position(),
                grammar_level(ts, start, 1) == grammar_level_rest(ts, self.position(), 1, expr@),
            decreases ts.len() - self.position(),
        {
            let op = match self.peek() {
                Some(Token::Star) => BinOp::Mul,
                Some(Token::Slash) => BinOp::Div,
                _ => {
                    return Ok(expr);
                },
            };
            self.advance();
            assert(grammar_level(ts, self.position(), 0) == grammar_unary(ts, self.position()));
            let right = self.parse_unary()?;
            expr = Expr::Binary(Box::new(expr), op, Box::new(right));
        }
    }

    /// Parses an operand with an optional leading `-`.
    fn parse_unary(&mut self) -> (r: Result<Expr, CompilerError>)
        requires
            old(self).wf(),
        ensures
            final(self).wf(),
            final(self).tokens() == old(self).tokens(),
            r is Ok ==> final(self).position() > old(self).position(),
            expr_agrees(
                r,
                final(self).position(),
                grammar_unary(old(self).tokens(), old(self).position()),
            ),
        decreases old(self).tokens().len() - old(self).position(), 1int,
    {
        if self.at(&Token::Minus) {
            self.advance();
            let expr = self.parse_primary()?;
            assert(expr_model(Expr::Number(0)) == ExprModel::Number(0));
            Ok(Expr::Binary(Box::new(Expr::Number(0)), BinOp::Sub, Box::new(expr)))
        } else {
            self.parse_primary()
        }
    }

    /// Parses a literal, a variable, a call or a parenthesised expression.
    #[verifier::rlimit(60)]
    #[verifier::loop_isolation(false)]
    fn parse_primary(&mut self) -> (r: Result<Expr, CompilerError>)
        requires
            old(self).wf(),
        ensures
            final(self).wf(),
            final(self).tokens() == old(self).tokens(),
            r is Ok ==> final(self).position() > old(self).position(),
            expr_agrees(
                r,
                final(self).position(),
                grammar_primary(old(self).tokens(), old(self).position()),
            ),
        decreases old(self).tokens().len() - old(self).position(), 0int,
    {
        let ghost ts = self.tokens();
        let ghost start = self.position();
        let head = match self.peek() {
            Some(t) => Some(t.duplicate()),
            None => None,
        };
        match head {
            Some(Token::Number(n)) => {
                self.advance();
                Ok(Expr::Number(n))
            },
            Some(Token::True) => {
                self.advance();
                Ok(Expr::Bool(true))
            },
            Some(Token::False) => {
                self.advance();
                Ok(Expr::Bool(false))
            },
            Some(Token::Ident(name)) => {
                self.advance();
                if self.at(&Token::LParen) {
                    self.advance();
                    let mut args: Vec<Expr> = Vec::new();
                    assert(exprs_model(args@) =~= Seq::<ExprModel>::empty());
                    if !self.at(&Token::RParen) {
                        let mut more = true;
                        while more
                            invariant
                                self.wf(),
                                self.tokens() == ts,
                                start + 2 <= self.position(),
                                !more ==> start + 2 < self.position(),
                                grammar_args(ts, start + 2, Seq::empty()) == if more {
                                    grammar_args(ts, self.position(), exprs_model(args@))
                                } else {
                                    Ok::<(Seq<ExprModel>, int), (int, SyntaxFault)>(
                                        (exprs_model(args@), self.position()),
                                    )
                                },
                            decreases ts.len() - self.position(), (if more { 1int } else { 0int }),
                        {
                            let ghost before = args@;
                            let arg = self.parse_expr()?;
                            args.push(arg);
                            assert(exprs_model(args@) =~= exprs_model(before).push(arg@));
                            if self.at(&Token::Comma) {
                                self.advance();
                            } else {
                                more = false;
                            }
                        }
                    }
                    self.expect(Token::RParen)?;
                    proof {
                        lemma_call_model(name, args);
                    }
                    Ok(Expr::Call(name, args))
                } else {
                    Ok(Expr::Variable(name))
                }
            },
            Some(Token::LParen) => {
                self.advance();
                let expr = self.parse_expr_then(Token::RParen)?;
                Ok(expr)
            },
            _ => Err(unexpected_error(self.peek())),
        }
    }
}

} // verus!
