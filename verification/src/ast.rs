//! The abstract syntax tree, its mathematical model, and verified copying.

use vstd::prelude::*;

verus! {

/// A binary operator.
#[derive(Debug, Clone, Copy, PartialEq, Eq, Structural)]
pub enum BinOp {
    Add,
    Sub,
    Mul,
    Div,
    Gt,
    Lt,
    Eq,
    Neq,
}

/// An expression tree.
#[derive(Debug)]
pub enum Expr {
    Number(i64),
    Bool(bool),
    Variable(String),
    Binary(Box<Expr>, BinOp, Box<Expr>),
    Call(String, Vec<Expr>),
}

/// A statement; blocks are ordered sequences of statements.
#[derive(Debug)]
pub enum Stmt {
    Let(String, Expr),
    Assign(String, Expr),
    Expr(Expr),
    If(Expr, Vec<Stmt>, Vec<Stmt>),
    While(Expr, Vec<Stmt>),
    DoWhile(Vec<Stmt>, Expr),
    For(String, Expr, Expr, Expr, Vec<Stmt>),
    FnDecl(String, Vec<String>, Vec<Stmt>),
    Return(Expr),
}

/// The mathematical value of an expression tree: names are character
/// sequences and argument lists are sequences.
pub enum ExprModel {
    Number(i64),
    Bool(bool),
    Variable(Seq<char>),
    Binary(Box<ExprModel>, BinOp, Box<ExprModel>),
    Call(Seq<char>, Seq<ExprModel>),
}

/// The mathematical value of a statement.
pub enum StmtModel {
    Let(Seq<char>, ExprModel),
    Assign(Seq<char>, ExprModel),
    Expr(ExprModel),
    If(ExprModel, Seq<StmtModel>, Seq<StmtModel>),
    While(ExprModel, Seq<StmtModel>),
    DoWhile(Seq<StmtModel>, ExprModel),
    For(Seq<char>, ExprModel, ExprModel, ExprModel, Seq<StmtModel>),
    FnDecl(Seq<char>, Seq<Seq<char>>, Seq<StmtModel>),
    Return(ExprModel),
}

/// The model of an expression.
pub open spec fn expr_model(e: Expr) -> ExprModel
    decreases e, 0int,
{
    match e {
        Expr::Number(n) => ExprModel::Number(n),
        Expr::Bool(b) => ExprModel::Bool(b),
        Expr::Variable(name) => ExprModel::Variable(name@),
        Expr::Binary(l, op, r) => ExprModel::Binary(
            Box::new(expr_model(*l)),
            op,
            Box::new(expr_model(*r)),
        ),
        Expr::Call(name, args) => ExprModel::Call(
            name@,
            args_model(args),
        ),
    }
}

/// The models of an argument list, in order.
pub open spec fn args_model(args: Vec<Expr>) -> Seq<ExprModel>
    decreases args, 1int,
{
    Seq::new(
        args.len() as nat,
        |i: int|
            if 0 <= i < args.len() {
                expr_model(args[i])
            } else {
                ExprModel::Number(0)
            },
    )
}

/// The models of a sequence of expressions, in order.
pub open spec fn exprs_model(v: Seq<Expr>) -> Seq<ExprModel> {
    Seq::new(v.len(), |i: int| expr_model(v[i]))
}

/// The views of a sequence of names, in order.
pub open spec fn names_model(v: Seq<String>) -> Seq<Seq<char>> {
    Seq::new(v.len(), |i: int| v[i]@)
}

/// The model of a statement.
pub open spec fn stmt_model(s: Stmt) -> StmtModel
    decreases s, 0int,
{
    match s {
        Stmt::Let(name, e) => StmtModel::Let(name@, expr_model(e)),
        Stmt::Assign(name, e) => StmtModel::Assign(name@, expr_model(e)),
        Stmt::Expr(e) => StmtModel::Expr(expr_model(e)),
        Stmt::If(c, t, f) => StmtModel::If(
            expr_model(c),
            block_model(t),
            block_model(f),
        ),
        Stmt::While(c, b) => StmtModel::While(
            expr_model(c),
            block_model(b),
        ),
        Stmt::DoWhile(b, c) => StmtModel::DoWhile(
            block_model(b),
            expr_model(c),
        ),
        Stmt::For(var, start, cond, step, b) => StmtModel::For(
            var@,
            expr_model(start),
            expr_model(cond),
            expr_model(step),
            block_model(b),
        ),
        Stmt::FnDecl(name, params, b) => StmtModel::FnDecl(
            name@,
            names_model(params@),
            block_model(b),
        ),
        Stmt::Return(e) => StmtModel::Return(expr_model(e)),
    }
}

/// The models of a block's statements, in order.
pub open spec fn block_model(b: Vec<Stmt>) -> Seq<StmtModel>
    decreases b, 1int,
{
    Seq::new(
        b.len() as nat,
        |i: int|
            if 0 <= i < b.len() {
                stmt_model(b[i])
            } else {
                StmtModel::Expr(ExprModel::Number(0))
            },
    )
}

/// The models of a sequence of statements, in order.
pub open spec fn stmts_model(v: Seq<Stmt>) -> Seq<StmtModel> {
    Seq::new(v.len(), |i: int| stmt_model(v[i]))
}

impl View for Expr {
    type V = ExprModel;

    open spec fn view(&self) -> ExprModel {
        expr_model(*self)
    }
}

impl View for Stmt {
    type V = StmtModel;

    open spec fn view(&self) -> StmtModel {
        stmt_model(*self)
    }
}

/// The model of an argument list is the sequence of its elements' models.
pub proof fn lemma_call_model(name: String, args: Vec<Expr>)
    ensures
        expr_model(Expr::Call(name, args)) == ExprModel::Call(name@, exprs_model(args@)),
        args_model(args) == exprs_model(args@),
{
    assert(args_model(args) =~= exprs_model(args@));
}

/// The model of a block is the sequence of its statements' models.
pub proof fn lemma_block_model(b: Vec<Stmt>)
    ensures
        block_model(b) == stmts_model(b@),
{
    assert(block_model(b) =~= stmts_model(b@));
}

/// Copies a name.
pub fn copy_name(name: &String) -> (r: String)
    ensures
        r@ == name@,
{
    name.clone()
}

/// Copies a list of names, keeping their order.
pub fn copy_names(names: &Vec<String>) -> (r: Vec<String>)
    ensures
        names_model(r@) == names_model(names@),
{
    let mut out: Vec<String> = Vec::new();
    let mut i: usize = 0;
    while i < names.len()
        invariant
            i <= names.len(),
            out.len() == i,
            forall|j: int| 0 <= j < i ==> out[j]@ == names[j]@,
        decreases names.len() - i,
    {
        out.push(copy_name(&names[i]));
        i += 1;
    }
    assert(names_model(out@) =~= names_model(names@));
    out
}

impl Expr {
    /// A structurally equal copy of this expression.
    #[verifier::loop_isolation(false)]
    pub fn deep_copy(&self) -> (r: Expr)
        ensures
            r@ == self@,
        decreases *self,
    {
        match self {
            Expr::Number(n) => Expr::Number(*n),
            Expr::Bool(b) => Expr::Bool(*b),
            Expr::Variable(name) => Expr::Variable(copy_name(name)),
            Expr::Binary(l, op, r) => Expr::Binary(
                Box::new(l.deep_copy()),
                *op,
                Box::new(r.deep_copy()),
            ),
            Expr::Call(name, args) => {
                let mut out: Vec<Expr> = Vec::new();
                let mut i: usize = 0;
                while i < args.len()
                    invariant
                        i <= args.len(),
                        out.len() == i,
                        forall|j: int| 0 <= j < i ==> expr_model(out[j]) == expr_model(args[j]),
                    decreases args.len() - i,
                {
                    out.push(args[i].deep_copy());
                    i += 1;
                }
                let name2 = copy_name(name);
                proof {
                    lemma_call_model(name2, out);
                    lemma_call_model(*name, *args);
                    assert(exprs_model(out@) =~= exprs_model(args@));
                }
                Expr::Call(name2, out)
            },
        }
    }
}

/// A structurally equal copy of a block.
#[verifier::loop_isolation(false)]
pub fn copy_block(block: &Vec<Stmt>) -> (r: Vec<Stmt>)
    ensures
        stmts_model(r@) == stmts_model(block@),
    decreases *block, 1int,
{
    let mut out: Vec<Stmt> = Vec::new();
    let mut i: usize = 0;
    while i < block.len()
        invariant
            i <= block.len(),
            out.len() == i,
            forall|j: int| 0 <= j < i ==> stmt_model(out[j]) == stmt_model(block[j]),
        decreases block.len() - i,
    {
        out.push(block[i].deep_copy());
        i += 1;
    }
    assert(stmts_model(out@) =~= stmts_model(block@));
    out
}

impl Stmt {
    /// A structurally equal copy of this statement.
    pub fn deep_copy(&self) -> (r: Stmt)
        ensures
            r@ == self@,
        decreases *self, 0int,
    {
        match self {
            Stmt::Let(name, e) => Stmt::Let(copy_name(name), e.deep_copy()),
            Stmt::Assign(name, e) => Stmt::Assign(copy_name(name), e.deep_copy()),
            Stmt::Expr(e) => Stmt::Expr(e.deep_copy()),
            Stmt::If(c, t, f) => {
                let t2 = copy_block(t);
                let f2 = copy_block(f);
                proof {
                    lemma_block_model(*t);
                    lemma_block_model(*f);
                    lemma_block_model(t2);
                    lemma_block_model(f2);
                }
                Stmt::If(c.deep_copy(), t2, f2)
            },
            Stmt::While(c, b) => {
                let b2 = copy_block(b);
                proof {
                    lemma_block_model(*b);
                    lemma_block_model(b2);
                }
                Stmt::While(c.deep_copy(), b2)
            },
            Stmt::DoWhile(b, c) => {
                let b2 = copy_block(b);
                proof {
                    lemma_block_model(*b);
                    lemma_block_model(b2);
                }
                Stmt::DoWhile(b2, c.deep_copy())
            },
            Stmt::For(var, start, cond, step, b) => {
                let b2 = copy_block(b);
                proof {
                    lemma_block_model(*b);
                    lemma_block_model(b2);
                }
                Stmt::For(
                    copy_name(var),
                    start.deep_copy(),
                    cond.deep_copy(),
                    step.deep_copy(),
                    b2,
                )
            },
            Stmt::FnDecl(name, params, b) => {
                let b2 = copy_block(b);
                proof {
                    lemma_block_model(*b);
                    lemma_block_model(b2);
                }
                Stmt::FnDecl(copy_name(name), copy_names(params), b2)
            },
            Stmt::Return(e) => Stmt::Return(e.deep_copy()),
        }
    }
}

impl Clone for Expr {
    fn clone(&self) -> (r: Self)
        ensures
            r@ == self@,
    {
        self.deep_copy()
    }
}

impl Clone for Stmt {
    fn clone(&self) -> (r: Self)
        ensures
            r@ == self@,
    {
        self.deep_copy()
    }
}

} // verus!
