//! The static type checker: one forward pass over the statements with a
//! flat environment of variable types and a flat table of function
//! signatures. The first type error ends the pass.

use crate::ast::{
    lemma_block_model, lemma_call_model, names_model, stmts_model, BinOp, Expr, ExprModel, Stmt,
    StmtModel,
};
use crate::error::CompilerError;
use crate::names::NameMap;
use vstd::prelude::*;
use vstd::string::StringExecFns;

verus! {

/// A static type.
#[derive(Debug, Clone, Copy, PartialEq, Eq, Structural)]
pub enum Type {
    Int,
    Bool,
    Void,
}

/// The parameter types and the return type of a declared function.
pub struct Signature {
    pub params: Vec<Type>,
    pub ret: Type,
}

/// What the checker knows: the type of each variable, and the parameter
/// types and return type of each function.
pub struct TypeState {
    pub vars: Map<Seq<char>, Type>,
    pub fns: Map<Seq<char>, (Seq<Type>, Type)>,
}

/// Why a program is ill-typed.
pub enum TypeFault {
    UndeclaredVariable(Seq<char>),
    AssignMismatch(Seq<char>),
    IfCondition,
    LoopCondition,
    ForTypes,
    NotIntegers,
    NotSameType,
    ArgCount(Seq<char>),
    ArgType,
    UndefinedFunction(Seq<char>),
}

/// The message of a type fault.
pub open spec fn type_fault_text(f: TypeFault) -> Seq<char> {
    match f {
        TypeFault::UndeclaredVariable(name) => "Undeclared variable: "@ + name,
        TypeFault::AssignMismatch(name) => "Type mismatch in assignment to "@ + name,
        TypeFault::IfCondition => "Condition in 'if' must be a boolean"@,
        TypeFault::LoopCondition => "Condition in loop must be a boolean"@,
        TypeFault::ForTypes => "Invalid types in 'for' loop"@,
        TypeFault::NotIntegers => "Operands must be integers"@,
        TypeFault::NotSameType => "Operands must be of the same type"@,
        TypeFault::ArgCount(name) => "Incorrect number of arguments in call to "@ + name,
        TypeFault::ArgType => "Argument type mismatch"@,
        TypeFault::UndefinedFunction(name) => "Undefined function: "@ + name,
    }
}

/// Whether `op` is one of `+ - * /`.
pub open spec fn is_arithmetic(op: BinOp) -> bool {
    op == BinOp::Add || op == BinOp::Sub || op == BinOp::Mul || op == BinOp::Div
}

/// The type of an expression, or the first fault in it.
pub open spec fn type_of(st: TypeState, e: ExprModel) -> Result<Type, TypeFault>
    decreases e, 0int,
{
    match e {
        ExprModel::Number(_) => Ok(Type::Int),
        ExprModel::Bool(_) => Ok(Type::Bool),
        ExprModel::Variable(name) => if st.vars.contains_key(name) {
            Ok(st.vars[name])
        } else {
            Err(TypeFault::UndeclaredVariable(name))
        },
        ExprModel::Binary(l, op, r) => match type_of(st, *l) {
            Err(f) => Err(f),
            Ok(lt) => match type_of(st, *r) {
                Err(f) => Err(f),
                Ok(rt) => if is_arithmetic(op) {
                    if lt == Type::Int && rt == Type::Int {
                        Ok(Type::Int)
                    } else {
                        Err(TypeFault::NotIntegers)
                    }
                } else if lt == rt {
                    Ok(Type::Bool)
                } else {
                    Err(TypeFault::NotSameType)
                },
            },
        },
        ExprModel::Call(name, args) => if st.fns.contains_key(name) {
            let sig = st.fns[name];
            if args.len() != sig.0.len() {
                Err(TypeFault::ArgCount(name))
            } else {
                match args_fault(st, args, sig.0, 0) {
                    Some(f) => Err(f),
                    None => Ok(sig.1),
                }
            }
        } else {
            Err(TypeFault::UndefinedFunction(name))
        },
    }
}

/// The first fault among the arguments from position `i` on, each checked
/// against the parameter type of its position; `None` where all fit.
pub open spec fn args_fault(
    st: TypeState,
    args: Seq<ExprModel>,
    params: Seq<Type>,
    i: int,
) -> Option<TypeFault>
    decreases args, args.len() - i,
{
    if i < 0 || i >= args.len() || i >= params.len() {
        None
    } else {
        match type_of(st, args[i]) {
            Err(f) => Some(f),
            Ok(t) => if t != params[i] {
                Some(TypeFault::ArgType)
            } else {
                args_fault(st, args, params, i + 1)
            },
        }
    }
}

/// The variable types after declaring the names from position `i` on as
/// integers.
pub open spec fn declare_ints(vars: Map<Seq<char>, Type>, names: Seq<Seq<char>>, i: int) -> Map<
    Seq<char>,
    Type,
>
    decreases names.len() - i,
{
    if i < 0 || i >= names.len() {
        vars
    } else {
        declare_ints(vars.insert(names[i], Type::Int), names, i + 1)
    }
}

/// The signature every declared function gets: `n` integers to an integer.
pub open spec fn int_signature(n: nat) -> (Seq<Type>, Type) {
    (Seq::new(n, |i: int| Type::Int), Type::Int)
}

/// The state after checking one statement, or the first fault in it.
pub open spec fn check_stmt_spec(st: TypeState, s: StmtModel) -> Result<
    TypeState,
    (TypeState, TypeFault),
>
    decreases s, 0int,
{
    match s {
        StmtModel::Let(name, e) => match type_of(st, e) {
            Err(f) => Err((st, f)),
            Ok(t) => Ok(TypeState { vars: st.vars.insert(name, t), fns: st.fns }),
        },
        StmtModel::Assign(name, e) => match type_of(st, e) {
            Err(f) => Err((st, f)),
            Ok(t) => if !st.vars.contains_key(name) {
                Err((st, TypeFault::UndeclaredVariable(name)))
            } else if st.vars[name] != t {
                Err((st, TypeFault::AssignMismatch(name)))
            } else {
                Ok(st)
            },
        },
        StmtModel::Expr(e) => match type_of(st, e) {
            Err(f) => Err((st, f)),
            Ok(_) => Ok(st),
        },
        StmtModel::Return(e) => match type_of(st, e) {
            Err(f) => Err((st, f)),
            Ok(_) => Ok(st),
        },
        StmtModel::If(c, t, f) => match type_of(st, c) {
            Err(fault) => Err((st, fault)),
            Ok(ct) => if ct != Type::Bool {
                Err((st, TypeFault::IfCondition))
            } else {
                match check_block_spec(st, t, 0) {
                    Err(fault) => Err(fault),
                    Ok(st2) => check_block_spec(st2, f, 0),
                }
            },
        },
        StmtModel::While(c, b) => match type_of(st, c) {
            Err(fault) => Err((st, fault)),
            Ok(ct) => if ct != Type::Bool {
                Err((st, TypeFault::LoopCondition))
            } else {
                check_block_spec(st, b, 0)
            },
        },
        StmtModel::DoWhile(b, c) => match type_of(st, c) {
            Err(fault) => Err((st, fault)),
            Ok(ct) => if ct != Type::Bool {
                Err((st, TypeFault::LoopCondition))
            } else {
                check_block_spec(st, b, 0)
            },
        },
        StmtModel::For(var, start, cond, step, b) => match type_of(st, start) {
            Err(fault) => Err((st, fault)),
            Ok(t_start) => match type_of(st, cond) {
                Err(fault) => Err((st, fault)),
                Ok(t_cond) => match type_of(st, step) {
                    Err(fault) => Err((st, fault)),
                    Ok(t_step) => if t_start != Type::Int || t_cond != Type::Bool || t_step
                        != Type::Int {
                        Err((st, TypeFault::ForTypes))
                    } else {
                        check_block_spec(
                            TypeState { vars: st.vars.insert(var, Type::Int), fns: st.fns },
                            b,
                            0,
                        )
                    },
                },
            },
        },
        StmtModel::FnDecl(name, params, b) => check_block_spec(
            TypeState {
                vars: declare_ints(st.vars, params, 0),
                fns: st.fns.insert(name, int_signature(params.len())),
            },
            b,
            0,
        ),
    }
}

/// The state after checking the statements of `b` from position `i` on, in
/// order, or the first fault.
pub open spec fn check_block_spec(st: TypeState, b: Seq<StmtModel>, i: int) -> Result<
    TypeState,
    (TypeState, TypeFault),
>
    decreases b, b.len() - i,
{
    if i < 0 || i >= b.len() {
        Ok(st)
    } else {
        match check_stmt_spec(st, b[i]) {
            Err(f) => Err(f),
            Ok(st2) => check_block_spec(st2, b, i + 1),
        }
    }
}

/// The model of a table of signatures.
pub open spec fn signatures_model(m: Map<Seq<char>, Signature>) -> Map<Seq<char>, (Seq<Type>, Type)> {
    m.map_values(|s: Signature| (s.params@, s.ret))
}

/// The failure `e` reports the type fault `f`.
pub open spec fn reports_type(e: CompilerError, f: TypeFault) -> bool {
    e is TypeError && e.spec_message() == type_fault_text(f)
}

/// A type error whose message is `prefix` followed by `name`.
fn named_type_error(prefix: &str, name: &String) -> (e: CompilerError)
    ensures
        e is TypeError,
        e.spec_message() == prefix@ + name@,
{
    CompilerError::TypeError(String::from_str(prefix).concat(name.as_str()))
}

/// A type error with a fixed message.
fn plain_type_error(text: &str) -> (e: CompilerError)
    ensures
        e is TypeError,
        e.spec_message() == text@,
{
    CompilerError::TypeError(String::from_str(text))
}

/// `n` integer types.
fn int_params(n: usize) -> (v: Vec<Type>)
    ensures
        v@ == int_signature(n as nat).0,
{
    let mut v: Vec<Type> = Vec::new();
    let mut i: usize = 0;
    while i < n
        invariant
            i <= n,
            v@ == Seq::new(i as nat, |j: int| Type::Int),
        decreases n - i,
    {
        v.push(Type::Int);
        i += 1;
        assert(v@ =~= Seq::new(i as nat, |j: int| Type::Int));
    }
    v
}

/// The static type checker.
pub struct TypeChecker {
    env: NameMap<Type>,
    functions: NameMap<Signature>,
}

impl TypeChecker {
    /// What the checker has recorded so far.
    pub closed spec fn state(&self) -> TypeState {
        TypeState { vars: self.env@, fns: signatures_model(self.functions@) }
    }

    /// The checker's tables are well-formed.
    pub closed spec fn wf(&self) -> bool {
        self.env.wf() && self.functions.wf()
    }

    /// A checker that knows no variable and no function.
    pub fn new() -> (c: Self)
        ensures
            c.wf(),
            c.state() == (TypeState { vars: Map::empty(), fns: Map::empty() }),
    {
        let c = TypeChecker { env: NameMap::new(), functions: NameMap::new() };
        assert(signatures_model(c.functions@) =~= Map::empty());
        c
    }

    /// Checks a program, statement by statement.
    ///
    /// Succeeds exactly when every statement is well-typed in the state its
    /// predecessors leave behind; otherwise reports the first fault and
    /// keeps what was recorded before it.
    pub fn check_program(&mut self, program: &[Stmt]) -> (r: Result<(), CompilerError>)
        requires
            old(self).wf(),
        ensures
            final(self).wf(),
            match r {
                Ok(_) => check_block_spec(old(self).state(), stmts_model(program@), 0) == Ok::<
                    TypeState,
                    (TypeState, TypeFault),
                >(final(self).state()),
                Err(e) => {
                    &&& check_block_spec(old(self).state(), stmts_model(program@), 0) is Err
                    &&& check_block_spec(old(self).state(), stmts_model(program@), 0)->Err_0.0 == final(self).state()
                    &&& reports_type(
                        e,
                        check_block_spec(old(self).state(), stmts_model(program@), 0)->Err_0.1,
                    )
                },
            },
    {
        let ghost b = stmts_model(program@);
        let mut i: usize = 0;
        while i < program.len()
            invariant
                self.wf(),
                i <= program.len(),
                b == stmts_model(program@),
                check_block_spec(old(self).state(), b, 0) == check_block_spec(
                    self.state(),
                    b,
                    i as int,
                ),
            decreases program.len() - i,
        {
            self.check_stmt(&program[i])?;
            i += 1;
        }
        Ok(())
    }

    /// Checks the statements of a block in order.
    #[verifier::loop_isolation(false)]
    fn check_block(&mut self, block: &Vec<Stmt>) -> (r: Result<(), CompilerError>)
        requires
            old(self).wf(),
        ensures
            final(self).wf(),
            match r {
                Ok(_) => check_block_spec(old(self).state(), stmts_model(block@), 0) == Ok::<
                    TypeState,
                    (TypeState, TypeFault),
                >(final(self).state()),
                Err(e) => {
                    &&& check_block_spec(old(self).state(), stmts_model(block@), 0) is Err
                    &&& check_block_spec(old(self).state(), stmts_model(block@), 0)->Err_0.0 == final(self).state()
                    &&& reports_type(
                        e,
                        check_block_spec(old(self).state(), stmts_model(block@), 0)->Err_0.1,
                    )
                },
            },
        decreases *block, 1int,
    {
        let ghost b = stmts_model(block@);
        let mut i: usize = 0;
        while i < block.len()
            invariant
                self.wf(),
                i <= block.len(),
                check_block_spec(old(self).state(), b, 0) == check_block_spec(
                    self.state(),
                    b,
                    i as int,
                ),
            decreases block.len() - i,
        {
            self.check_stmt(&block[i])?;
            i += 1;
        }
        Ok(())
    }

    /// The type of `expr`, which must be `Bool`, else the failure `text`.
    fn check_condition(&self, cond: &Expr, text: &str) -> (r: Result<(), CompilerError>)
        requires
            self.wf(),
        ensures
            match r {
                Ok(_) => type_of(self.state(), cond@) == Ok::<Type, TypeFault>(Type::Bool),
                Err(e) => e is TypeError && match type_of(self.state(), cond@) {
                    Ok(t) => t != Type::Bool && e.spec_message() == text@,
                    Err(f) => e.spec_message() == type_fault_text(f),
                },
            },
    {
        let t = self.check_expr(cond)?;
        if t != Type::Bool {
            return Err(plain_type_error(text));
        }
        Ok(())
    }

    /// Checks one statement and records what it declares.
    #[verifier::rlimit(60)]
    #[verifier::loop_isolation(false)]
    fn check_stmt(&mut self, stmt: &Stmt) -> (r: Result<(), CompilerError>)
        requires
            old(self).wf(),
        ensures
            final(self).wf(),
            match r {
                Ok(_) => check_stmt_spec(old(self).state(), stmt@) == Ok::<
                    TypeState,
                    (TypeState, TypeFault),
                >(final(self).state()),
                Err(e) => {
                    &&& check_stmt_spec(old(self).state(), stmt@) is Err
                    &&& check_stmt_spec(old(self).state(), stmt@)->Err_0.0 == final(self).state()
                    &&& reports_type(e, check_stmt_spec(old(self).state(), stmt@)->Err_0.1)
                },
            },
        decreases *stmt, 0int,
    {
        match stmt {
            Stmt::Let(name, expr) => {
                let t = self.check_expr(expr)?;
                self.env.insert(name.clone(), t);
            },
            Stmt::Assign(name, expr) => {
                let t = self.check_expr(expr)?;
                match self.env.get(name) {
                    Some(var_type) => {
                        if *var_type != t {
                            return Err(named_type_error("Type mismatch in assignment to ", name));
                        }
                    },
                    None => {
                        return Err(named_type_error("Undeclared variable: ", name));
                    },
                }
            },
            Stmt::If(cond, then_block, else_block) => {
                proof {
                    lemma_block_model(*then_block);
                    lemma_block_model(*else_block);
                }
                self.check_condition(cond, "Condition in 'if' must be a boolean")?;
                self.check_block(then_block)?;
                self.check_block(else_block)?;
            },
            Stmt::While(cond, body) => {
                proof {
                    lemma_block_model(*body);
                }
                self.check_condition(cond, "Condition in loop must be a boolean")?;
                self.check_block(body)?;
            },
            Stmt::DoWhile(body, cond) => {
                proof {
                    lemma_block_model(*body);
                }
                self.check_condition(cond, "Condition in loop must be a boolean")?;
                self.check_block(body)?;
            },
            Stmt::For(var, start, cond, step, body) => {
                proof {
                    lemma_block_model(*body);
                }
                let t_start = self.check_expr(start)?;
                let t_cond = self.check_expr(cond)?;
                let t_step = self.check_expr(step)?;
                if t_start != Type::Int || t_cond != Type::Bool || t_step != Type::Int {
                    return Err(plain_type_error("Invalid types in 'for' loop"));
                }
                self.env.insert(var.clone(), Type::Int);
                self.check_block(body)?;
            },
            Stmt::FnDecl(name, params, body) => {
                proof {
                    lemma_block_model(*body);
                }
                let ghost before = self.functions@;
                let sig = Signature { params: int_params(params.len()), ret: Type::Int };
                self.functions.insert(name.clone(), sig);
                assert(signatures_model(self.functions@) =~= signatures_model(before).insert(
                    name@,
                    int_signature(params.len() as nat),
                ));
                let ghost vars0 = self.env@;
                let ghost names = names_model(params@);
                let ghost table = self.functions;
                let mut i: usize = 0;
                while i < params.len()
                    invariant
                        self.env.wf(),
                        self.functions == table,
                        i <= params.len(),
                        declare_ints(vars0, names, 0) == declare_ints(self.env@, names, i as int),
                    decreases params.len() - i,
                {
                    self.env.insert(params[i].clone(), Type::Int);
                    i += 1;
                }
                self.check_block(body)?;
            },
            Stmt::Return(expr) => {
                self.check_expr(expr)?;
            },
            Stmt::Expr(expr) => {
                self.check_expr(expr)?;
            },
        }
        Ok(())
    }

    /// The type of an expression.
    #[verifier::rlimit(60)]
    #[verifier::loop_isolation(false)]
    fn check_expr(&self, expr: &Expr) -> (r: Result<Type, CompilerError>)
        requires
            self.wf(),
        ensures
            match r {
                Ok(t) => type_of(self.state(), expr@) == Ok::<Type, TypeFault>(t),
                Err(e) => {
                    &&& type_of(self.state(), expr@) is Err
                    &&& reports_type(e, type_of(self.state(), expr@)->Err_0)
                },
            },
        decreases *expr,
    {
        match expr {
            Expr::Number(_) => Ok(Type::Int),
            Expr::Bool(_) => Ok(Type::Bool),
            Expr::Variable(name) => match self.env.get(name) {
                Some(t) => Ok(*t),
                None => Err(named_type_error("Undeclared variable: ", name)),
            },
            Expr::Binary(lhs, op, rhs) => {
                let lt = self.check_expr(lhs)?;
                let rt = self.check_expr(rhs)?;
                match op {
                    BinOp::Add | BinOp::Sub | BinOp::Mul | BinOp::Div => {
                        if lt == Type::Int && rt == Type::Int {
                            Ok(Type::Int)
                        } else {
                            Err(plain_type_error("Operands must be integers"))
                        }
                    },
                    BinOp::Eq | BinOp::Neq | BinOp::Gt | BinOp::Lt => {
                        if lt == rt {
                            Ok(Type::Bool)
                        } else {
                            Err(plain_type_error("Operands must be of the same type"))
                        }
                    },
                }
            },
            Expr::Call(name, args) => {
                proof {
                    lemma_call_model(*name, *args);
                }
                match self.functions.get(name) {
                    Some(sig) => {
                        if args.len() != sig.params.len() {
                            return Err(
                                named_type_error(
                                    "Incorrect number of arguments in call to ",
                                    name,
                                ),
                            );
                        }
                        let ghost st = self.state();
                        let ghost models = expr@->Call_1;
                        let mut i: usize = 0;
                        while i < args.len()
                            invariant
                                i <= args.len(),
                                args_fault(st, models, sig.params@, 0) == args_fault(
                                    st,
                                    models,
                                    sig.params@,
                                    i as int,
                                ),
                            decreases args.len() - i,
                        {
                            let arg_type = self.check_expr(&args[i])?;
                            if arg_type != sig.params[i] {
                                return Err(plain_type_error("Argument type mismatch"));
                            }
                            i += 1;
                        }
                        Ok(sig.ret)
                    },
                    None => Err(named_type_error("Undefined function: ", name)),
                }
            },
        }
    }
}

} // verus!
