//! The interpreter: a tree-walking evaluator over a flat variable
//! environment and a flat function table.
//!
//! Evaluation is bounded by a budget: a function's body runs with
//! `CALL_COST` units less than the call, a loop's round with one unit less
//! than the round before, and where the budget does not suffice evaluation
//! stops with a runtime error. So neither endless recursion nor an endless
//! loop keeps the evaluator from returning.
//!
//! The meaning of a program is stated as functions on the syntax tree's
//! model; the evaluator is proved to compute them.

use crate::ast::{
    copy_block, copy_names, lemma_block_model, lemma_call_model, names_model, stmts_model, BinOp,
    Expr, ExprModel, Stmt, StmtModel,
};
use crate::error::CompilerError;
use crate::names::NameMap;
use vstd::prelude::*;
use vstd::string::StringExecFns;

verus! {

/// The budget of an interpreter made by `Interpreter::new`.
pub const DEFAULT_BUDGET: u64 = 100000;

/// What a function call takes from the budget; a loop round takes 1.
pub const CALL_COST: u64 = 500;

/// A declared function: its parameter names and its body.
pub struct FnDef {
    pub params: Vec<String>,
    pub body: Vec<Stmt>,
}

/// The runtime state: the value of each variable (booleans are 0 and 1),
/// and the parameter names and body of each function.
pub struct RunState {
    pub vars: Map<Seq<char>, i64>,
    pub fns: Map<Seq<char>, (Seq<Seq<char>>, Seq<StmtModel>)>,
}

/// Why an evaluation stops.
pub enum RuntimeFault {
    UndefinedVariable(Seq<char>),
    UndefinedFunction(Seq<char>),
    ArgCount(Seq<char>),
    DivisionByZero,
    DivisionOverflow,
    Exhausted,
}

/// The message of a runtime fault.
pub open spec fn runtime_fault_text(f: RuntimeFault) -> Seq<char> {
    match f {
        RuntimeFault::UndefinedVariable(name) => "Undefined variable: "@ + name,
        RuntimeFault::UndefinedFunction(name) => "Undefined function: "@ + name,
        RuntimeFault::ArgCount(name) => "Incorrect argument count in call to "@ + name,
        RuntimeFault::DivisionByZero => "Division by zero"@,
        RuntimeFault::DivisionOverflow => "Division overflow"@,
        RuntimeFault::Exhausted => "Evaluation budget exhausted"@,
    }
}

/// The quotient of `x` by `d`, rounded towards zero.
pub open spec fn truncated_quotient(x: int, d: int) -> int
    recommends
        d != 0,
{
    if x == 0 {
        0
    } else if x > 0 && d > 0 {
        x / d
    } else if x < 0 && d < 0 {
        (x * -1) / (d * -1)
    } else if x < 0 {
        ((x * -1) / d) * -1
    } else {
        (x / (d * -1)) * -1
    }
}

/// 1 for true, 0 for false.
pub open spec fn truth(b: bool) -> i64 {
    if b {
        1
    } else {
        0
    }
}

/// The value of `a op b`: sums, differences and products in 64-bit two's
/// complement; quotients rounded towards zero, with a fault where the
/// divisor is zero or the quotient does not fit; comparisons as 0 or 1.
pub open spec fn apply_op(op: BinOp, a: i64, b: i64) -> Result<i64, RuntimeFault> {
    match op {
        BinOp::Add => Ok(a.wrapping_add(b)),
        BinOp::Sub => Ok(a.wrapping_sub(b)),
        BinOp::Mul => Ok(a.wrapping_mul(b)),
        BinOp::Div => if b == 0 {
            Err(RuntimeFault::DivisionByZero)
        } else if a == i64::MIN && b == -1 {
            Err(RuntimeFault::DivisionOverflow)
        } else {
            Ok(truncated_quotient(a as int, b as int) as i64)
        },
        BinOp::Eq => Ok(truth(a == b)),
        BinOp::Neq => Ok(truth(a != b)),
        BinOp::Gt => Ok(truth(a > b)),
        BinOp::Lt => Ok(truth(a < b)),
    }
}

/// The value of an expression in the state `st`.
///
/// A call checks the number of arguments, evaluates them in the caller's
/// state, and runs the body on a copy of the caller's variables overwritten
/// with the parameters, and on a copy of the function table. Of what the
/// body does only the value of its `return` comes back, or 0 where it
/// executes none.
pub open spec fn eval(st: RunState, e: ExprModel, fuel: nat) -> Result<i64, RuntimeFault>
    decreases fuel, 0int, e, 0int,
{
    match e {
        ExprModel::Number(n) => Ok(n),
        ExprModel::Bool(b) => Ok(truth(b)),
        ExprModel::Variable(name) => if st.vars.contains_key(name) {
            Ok(st.vars[name])
        } else {
            Err(RuntimeFault::UndefinedVariable(name))
        },
        ExprModel::Binary(l, op, r) => match eval(st, *l, fuel) {
            Err(f) => Err(f),
            Ok(a) => match eval(st, *r, fuel) {
                Err(f) => Err(f),
                Ok(b) => apply_op(op, a, b),
            },
        },
        ExprModel::Call(name, args) => if !st.fns.contains_key(name) {
            Err(RuntimeFault::UndefinedFunction(name))
        } else {
            let def = st.fns[name];
            if args.len() != def.0.len() {
                Err(RuntimeFault::ArgCount(name))
            } else {
                match bind_args(st, st.vars, def.0, args, 0, fuel) {
                    Err(f) => Err(f),
                    Ok(vars) => if fuel < CALL_COST {
                        Err(RuntimeFault::Exhausted)
                    } else {
                        match run_block(
                            RunState { vars: vars, fns: st.fns },
                            def.1,
                            0,
                            (fuel - CALL_COST) as nat,
                        ) {
                            Err(f) => Err(f.1),
                            Ok((_, Some(v))) => Ok(v),
                            Ok((_, None)) => Ok(0),
                        }
                    },
                }
            }
        },
    }
}

/// The callee's variables: `vars`, overwritten with the parameters from
/// position `i` on, each bound to its argument's value in the caller's
/// state `st`.
pub open spec fn bind_args(
    st: RunState,
    vars: Map<Seq<char>, i64>,
    params: Seq<Seq<char>>,
    args: Seq<ExprModel>,
    i: int,
    fuel: nat,
) -> Result<Map<Seq<char>, i64>, RuntimeFault>
    decreases fuel, 0int, args, args.len() - i,
{
    if i < 0 || i >= args.len() || i >= params.len() {
        Ok(vars)
    } else {
        match eval(st, args[i], fuel) {
            Err(f) => Err(f),
            Ok(v) => bind_args(st, vars.insert(params[i], v), params, args, i + 1, fuel),
        }
    }
}

/// The state after one statement, with the value of a `return` that it
/// executed, if it did.
pub open spec fn run_stmt(st: RunState, s: StmtModel, fuel: nat) -> Result<
    (RunState, Option<i64>),
    (RunState, RuntimeFault),
>
    decreases fuel, 1int, s, 0int,
{
    match s {
        StmtModel::Let(name, e) => match eval(st, e, fuel) {
            Err(f) => Err((st, f)),
            Ok(v) => Ok((RunState { vars: st.vars.insert(name, v), fns: st.fns }, None)),
        },
        StmtModel::Assign(name, e) => match eval(st, e, fuel) {
            Err(f) => Err((st, f)),
            Ok(v) => if st.vars.contains_key(name) {
                Ok((RunState { vars: st.vars.insert(name, v), fns: st.fns }, None))
            } else {
                Err((st, RuntimeFault::UndefinedVariable(name)))
            },
        },
        StmtModel::Expr(e) => match eval(st, e, fuel) {
            Err(f) => Err((st, f)),
            Ok(_) => Ok((st, None)),
        },
        StmtModel::Return(e) => match eval(st, e, fuel) {
            Err(f) => Err((st, f)),
            Ok(v) => Ok((st, Some(v))),
        },
        StmtModel::If(c, t, f) => match eval(st, c, fuel) {
            Err(fault) => Err((st, fault)),
            Ok(v) => if v != 0 {
                run_block(st, t, 0, fuel)
            } else {
                run_block(st, f, 0, fuel)
            },
        },
        StmtModel::While(c, b) => run_while(st, c, b, fuel),
        StmtModel::DoWhile(b, c) => match run_block(st, b, 0, fuel) {
            Err(f) => Err(f),
            Ok((st2, Some(v))) => Ok((st2, Some(v))),
            Ok((st2, None)) => run_while(st2, c, b, fuel),
        },
        StmtModel::For(var, start, cond, step, b) => match eval(st, start, fuel) {
            Err(f) => Err((st, f)),
            Ok(v) => run_for(
                RunState { vars: st.vars.insert(var, v), fns: st.fns },
                var,
                cond,
                step,
                b,
                fuel,
            ),
        },
        StmtModel::FnDecl(name, params, b) => Ok(
            (RunState { vars: st.vars, fns: st.fns.insert(name, (params, b)) }, None),
        ),
    }
}

/// The statements of `b` from position `i` on, in order, up to the first
/// `return`.
pub open spec fn run_block(st: RunState, b: Seq<StmtModel>, i: int, fuel: nat) -> Result<
    (RunState, Option<i64>),
    (RunState, RuntimeFault),
>
    decreases fuel, 1int, b, b.len() - i,
{
    if i < 0 || i >= b.len() {
        Ok((st, None))
    } else {
        match run_stmt(st, b[i], fuel) {
            Err(f) => Err(f),
            Ok((st2, Some(v))) => Ok((st2, Some(v))),
            Ok((st2, None)) => run_block(st2, b, i + 1, fuel),
        }
    }
}

/// Test `c`, and while it holds run `b` and test again; each round takes
/// one unit of the budget.
pub open spec fn run_while(st: RunState, c: ExprModel, b: Seq<StmtModel>, fuel: nat) -> Result<
    (RunState, Option<i64>),
    (RunState, RuntimeFault),
>
    decreases fuel, 1int, b, 1int,
{
    if fuel == 0 {
        Err((st, RuntimeFault::Exhausted))
    } else {
        let rest = (fuel - 1) as nat;
        match eval(st, c, rest) {
            Err(f) => Err((st, f)),
            Ok(v) => if v == 0 {
                Ok((st, None))
            } else {
                match run_block(st, b, 0, rest) {
                    Err(f) => Err(f),
                    Ok((st2, Some(r))) => Ok((st2, Some(r))),
                    Ok((st2, None)) => run_while(st2, c, b, rest),
                }
            },
        }
    }
}

/// The rounds of a `for` loop whose variable is bound already: test `c`,
/// and while it holds run `b`, rebind `var` to the value of `step` and test
/// again; each round takes one unit of the budget.
pub open spec fn run_for(
    st: RunState,
    var: Seq<char>,
    c: ExprModel,
    step: ExprModel,
    b: Seq<StmtModel>,
    fuel: nat,
) -> Result<(RunState, Option<i64>), (RunState, RuntimeFault)>
    decreases fuel, 1int, b, 1int,
{
    if fuel == 0 {
        Err((st, RuntimeFault::Exhausted))
    } else {
        let rest = (fuel - 1) as nat;
        match eval(st, c, rest) {
            Err(f) => Err((st, f)),
            Ok(v) => if v == 0 {
                Ok((st, None))
            } else {
                match run_block(st, b, 0, rest) {
                    Err(f) => Err(f),
                    Ok((st2, Some(r))) => Ok((st2, Some(r))),
                    Ok((st2, None)) => match eval(st2, step, rest) {
                        Err(f) => Err((st2, f)),
                        Ok(next) => run_for(
                            RunState { vars: st2.vars.insert(var, next), fns: st2.fns },
                            var,
                            c,
                            step,
                            b,
                            rest,
                        ),
                    },
                }
            },
        }
    }
}

/// The state after the top-level statements from position `i` on; the
/// value of a top-level `return` is dropped and the next statement runs.
pub open spec fn run_program(st: RunState, program: Seq<StmtModel>, i: int, fuel: nat) -> Result<
    RunState,
    (RunState, RuntimeFault),
>
    decreases program.len() - i,
{
    if i < 0 || i >= program.len() {
        Ok(st)
    } else {
        match run_stmt(st, program[i], fuel) {
            Err(f) => Err(f),
            Ok((st2, _)) => run_program(st2, program, i + 1, fuel),
        }
    }
}

/// The model of a declared function: its parameter names and the model of
/// its body.
pub open spec fn def_model(d: FnDef) -> (Seq<Seq<char>>, Seq<StmtModel>) {
    (names_model(d.params@), stmts_model(d.body@))
}

/// The model of a function table.
pub open spec fn functions_model(m: Map<Seq<char>, FnDef>) -> Map<
    Seq<char>,
    (Seq<Seq<char>>, Seq<StmtModel>),
> {
    m.map_values(|d: FnDef| def_model(d))
}

/// The failure `e` reports the runtime fault `f`.
pub open spec fn reports_runtime(e: CompilerError, f: RuntimeFault) -> bool {
    e is RuntimeError && e.spec_message() == runtime_fault_text(f)
}

/// The evaluator's answer `r`, leaving the state `after`, is what the
/// semantics `s` gives: the same value and state where it succeeds, the
/// same fault and the state reached before it where it fails.
pub open spec fn run_agrees(
    r: Result<Option<i64>, CompilerError>,
    after: RunState,
    s: Result<(RunState, Option<i64>), (RunState, RuntimeFault)>,
) -> bool {
    match r {
        Ok(flow) => s == Ok::<(RunState, Option<i64>), (RunState, RuntimeFault)>((after, flow)),
        Err(e) => s is Err && s->Err_0.0 == after && reports_runtime(e, s->Err_0.1),
    }
}

/// The evaluator's answer `r` is what the semantics `s` gives.
pub open spec fn value_agrees(r: Result<i64, CompilerError>, s: Result<i64, RuntimeFault>) -> bool {
    match r {
        Ok(v) => s == Ok::<i64, RuntimeFault>(v),
        Err(e) => s is Err && reports_runtime(e, s->Err_0),
    }
}


/// A runtime error whose message is `prefix` followed by `name`.
fn named_runtime_error(prefix: &str, name: &String) -> (e: CompilerError)
    ensures
        e is RuntimeError,
        e.spec_message() == prefix@ + name@,
{
    CompilerError::RuntimeError(String::from_str(prefix).concat(name.as_str()))
}

/// A runtime error with a fixed message.
fn plain_runtime_error(text: &str) -> (e: CompilerError)
    ensures
        e is RuntimeError,
        e.spec_message() == text@,
{
    CompilerError::RuntimeError(String::from_str(text))
}

/// A quotient of natural numbers is at most the dividend, and at most half
/// of it where the divisor is two or more.
proof fn lemma_quotient_small(x: int, d: int)
    requires
        x >= 0,
        d > 0,
    ensures
        0 <= x / d <= x,
        d >= 2 ==> 2 * (x / d) <= x,
        d == 1 ==> x / d == x,
{
    vstd::arithmetic::div_mod::lemma_fundamental_div_mod(x, d);
    vstd::arithmetic::div_mod::lemma_div_pos_is_pos(x, d);
    vstd::arithmetic::div_mod::lemma_mod_bound(x, d);
    let q = x / d;
    assert(x == d * q + x % d);
    assert(d * q >= q) by (nonlinear_arith)
        requires
            d >= 1,
            q >= 0,
    ;
    if d >= 2 {
        assert(d * q >= 2 * q) by (nonlinear_arith)
            requires
                d >= 2,
                q >= 0,
        ;
    }
    if d == 1 {
        assert(d * q == q) by (nonlinear_arith)
            requires
                d == 1,
        ;
    }
}

/// The quotient of two 64-bit values fits in 64 bits unless the least value
/// is divided by -1.
pub proof fn lemma_quotient_fits(x: int, d: int)
    requires
        d != 0,
        i64::MIN <= x <= i64::MAX,
        i64::MIN <= d <= i64::MAX,
    ensures
        !(x == i64::MIN && d == -1) ==> i64::MIN <= truncated_quotient(x, d) <= i64::MAX,
        x == i64::MIN && d == -1 ==> truncated_quotient(x, d) > i64::MAX,
{
    if x > 0 && d > 0 {
        lemma_quotient_small(x, d);
    } else if x < 0 && d < 0 {
        lemma_quotient_small(x * -1, d * -1);
    } else if x < 0 {
        lemma_quotient_small(x * -1, d);
    } else if x > 0 {
        lemma_quotient_small(x, d * -1);
    }
}

/// The quotient `q` of `x` by `d` leaves a remainder `x - q * d` that is
/// smaller than `d` in magnitude and has the sign of `x`: the quotient is
/// rounded towards zero.
pub proof fn lemma_quotient_rounds_towards_zero(x: int, d: int)
    requires
        d != 0,
    ensures
        x >= 0 ==> x - truncated_quotient(x, d) * d >= 0,
        x <= 0 ==> x - truncated_quotient(x, d) * d <= 0,
        d > 0 ==> -d < x - truncated_quotient(x, d) * d < d,
        d < 0 ==> d < x - truncated_quotient(x, d) * d < -d,
{
    let ax = if x < 0 {
        x * -1
    } else {
        x
    };
    let ad = if d < 0 {
        d * -1
    } else {
        d
    };
    vstd::arithmetic::div_mod::lemma_fundamental_div_mod(ax, ad);
    vstd::arithmetic::div_mod::lemma_mod_bound(ax, ad);
    let aq = ax / ad;
    let q = truncated_quotient(x, d);
    if x == 0 {
        assert(q * d == 0) by (nonlinear_arith)
            requires
                q == 0,
        ;
    } else if (x > 0 && d > 0) || (x < 0 && d < 0) {
        assert(q == aq);
        assert(q * d == if d > 0 {
            ad * aq
        } else {
            -(ad * aq)
        }) by (nonlinear_arith)
            requires
                q == aq,
                ad == if d < 0 {
                    d * -1
                } else {
                    d
                },
        ;
    } else {
        assert(q == aq * -1);
        assert(q * d == if d > 0 {
            -(ad * aq)
        } else {
            ad * aq
        }) by (nonlinear_arith)
            requires
                q == aq * -1,
                ad == if d < 0 {
                    d * -1
                } else {
                    d
                },
        ;
    }
}

/// A division whose divisor evaluates to zero stops with the division
/// fault, whatever the dividend.
pub proof fn lemma_division_by_zero(st: RunState, l: ExprModel, r: ExprModel, fuel: nat)
    requires
        eval(st, l, fuel) is Ok,
        eval(st, r, fuel) == Ok::<i64, RuntimeFault>(0),
    ensures
        eval(st, ExprModel::Binary(Box::new(l), BinOp::Div, Box::new(r)), fuel) == Err::<
            i64,
            RuntimeFault,
        >(RuntimeFault::DivisionByZero),
{
}

/// A `do .. while` loop runs its body before it tests its condition: where
/// the body completes and the condition is then false, the loop leaves the
/// state that one run of the body leaves.
pub proof fn lemma_do_while_runs_body_once(
    st: RunState,
    body: Seq<StmtModel>,
    cond: ExprModel,
    fuel: nat,
)
    requires
        fuel > 0,
        run_block(st, body, 0, fuel) is Ok,
        run_block(st, body, 0, fuel)->Ok_0.1 is None,
        eval(run_block(st, body, 0, fuel)->Ok_0.0, cond, (fuel - 1) as nat) == Ok::<
            i64,
            RuntimeFault,
        >(0),
    ensures
        run_stmt(st, StmtModel::DoWhile(body, cond), fuel) == Ok::<
            (RunState, Option<i64>),
            (RunState, RuntimeFault),
        >((run_block(st, body, 0, fuel)->Ok_0.0, None)),
{
}

/// A `for` loop whose condition is false at the first test leaves its
/// variable bound to the start value, visible after the loop.
pub proof fn lemma_for_variable_stays(
    st: RunState,
    var: Seq<char>,
    start: ExprModel,
    cond: ExprModel,
    step: ExprModel,
    body: Seq<StmtModel>,
    fuel: nat,
)
    requires
        fuel > 0,
        eval(st, start, fuel) is Ok,
        eval(
            RunState { vars: st.vars.insert(var, eval(st, start, fuel)->Ok_0), fns: st.fns },
            cond,
            (fuel - 1) as nat,
        ) == Ok::<i64, RuntimeFault>(0),
    ensures
        run_stmt(st, StmtModel::For(var, start, cond, step, body), fuel) is Ok,
        run_stmt(st, StmtModel::For(var, start, cond, step, body), fuel)->Ok_0.0.vars
            == st.vars.insert(var, eval(st, start, fuel)->Ok_0),
{
}

/// A statement that binds the value of an expression changes that one
/// variable and nothing else, whatever the functions called in the
/// expression do to their own copies of the state.
pub proof fn lemma_let_changes_one_variable(st: RunState, name: Seq<char>, e: ExprModel, fuel: nat)
    requires
        run_stmt(st, StmtModel::Let(name, e), fuel) is Ok,
    ensures
        eval(st, e, fuel) is Ok,
        run_stmt(st, StmtModel::Let(name, e), fuel)->Ok_0.0.vars == st.vars.insert(
            name,
            eval(st, e, fuel)->Ok_0,
        ),
        run_stmt(st, StmtModel::Let(name, e), fuel)->Ok_0.0.fns == st.fns,
        run_stmt(st, StmtModel::Let(name, e), fuel)->Ok_0.1 is None,
{
}

/// Sums, differences and products that fit in 64 bits are exact.
pub proof fn lemma_exact_arithmetic(a: i64, b: i64)
    ensures
        i64::MIN <= a + b <= i64::MAX ==> apply_op(BinOp::Add, a, b) == Ok::<i64, RuntimeFault>(
            (a + b) as i64,
        ),
        i64::MIN <= a - b <= i64::MAX ==> apply_op(BinOp::Sub, a, b) == Ok::<i64, RuntimeFault>(
            (a - b) as i64,
        ),
        i64::MIN <= a * b <= i64::MAX ==> apply_op(BinOp::Mul, a, b) == Ok::<i64, RuntimeFault>(
            (a * b) as i64,
        ),
{
}

/// Applies a binary operator to two values.
pub fn apply(op: BinOp, a: i64, b: i64) -> (r: Result<i64, CompilerError>)
    ensures
        value_agrees(r, apply_op(op, a, b)),
{
    match op {
        BinOp::Add => Ok(a.wrapping_add(b)),
        BinOp::Sub => Ok(a.wrapping_sub(b)),
        BinOp::Mul => Ok(a.wrapping_mul(b)),
        BinOp::Div => {
            proof {
                if b != 0 {
                    lemma_quotient_fits(a as int, b as int);
                }
            }
            match a.checked_div(b) {
                Some(q) => Ok(q),
                None => if b == 0 {
                    Err(plain_runtime_error("Division by zero"))
                } else {
                    Err(plain_runtime_error("Division overflow"))
                },
            }
        },
        BinOp::Eq => Ok(if a == b {
            1
        } else {
            0
        }),
        BinOp::Neq => Ok(if a != b {
            1
        } else {
            0
        }),
        BinOp::Gt => Ok(if a > b {
            1
        } else {
            0
        }),
        BinOp::Lt => Ok(if a < b {
            1
        } else {
            0
        }),
    }
}

/// A copy of a variable environment.
fn copy_env(env: &NameMap<i64>) -> (r: NameMap<i64>)
    requires
        env.wf(),
    ensures
        r.wf(),
        r@ == env@,
{
    let keys = env.copy_keys();
    let mut vals: Vec<i64> = Vec::new();
    let mut i: usize = 0;
    while i < env.vals.len()
        invariant
            i <= env.vals.len(),
            vals.len() == i,
            forall|j: int| 0 <= j < i ==> vals[j] == env.vals[j],
        decreases env.vals.len() - i,
    {
        vals.push(env.vals[i]);
        i += 1;
    }
    let r = NameMap { keys, vals };
    proof {
        env.lemma_same_names(&r);
        assert(r@ =~= env@);
    }
    r
}

/// A copy of a function table.
fn copy_functions(table: &NameMap<FnDef>) -> (r: NameMap<FnDef>)
    requires
        table.wf(),
    ensures
        r.wf(),
        functions_model(r@) == functions_model(table@),
{
    let keys = table.copy_keys();
    let mut vals: Vec<FnDef> = Vec::new();
    let mut i: usize = 0;
    while i < table.vals.len()
        invariant
            i <= table.vals.len(),
            vals.len() == i,
            forall|j: int| 0 <= j < i ==> def_model(#[trigger] vals[j]) == def_model(table.vals[j]),
        decreases table.vals.len() - i,
    {
        let def = &table.vals[i];
        vals.push(FnDef { params: copy_names(&def.params), body: copy_block(&def.body) });
        i += 1;
    }
    let r = NameMap { keys, vals };
    proof {
        table.lemma_same_names(&r);
        assert(functions_model(r@) =~= functions_model(table@));
    }
    r
}

/// The interpreter: a variable environment, a function table and a budget.
pub struct Interpreter {
    env: NameMap<i64>,
    functions: NameMap<FnDef>,
    budget: u64,
}

impl Interpreter {
    /// The runtime state.
    pub closed spec fn state(&self) -> RunState {
        RunState { vars: self.env@, fns: functions_model(self.functions@) }
    }

    /// The budget with which each top-level statement runs.
    pub closed spec fn budget(&self) -> nat {
        self.budget as nat
    }

    /// The interpreter's tables are well-formed.
    pub closed spec fn wf(&self) -> bool {
        self.env.wf() && self.functions.wf()
    }

    /// An interpreter with no variable, no function and the default budget.
    pub fn new() -> (it: Self)
        ensures
            it.wf(),
            it.state() == (RunState { vars: Map::empty(), fns: Map::empty() }),
            it.budget() == DEFAULT_BUDGET,
    {
        Interpreter::with_budget(DEFAULT_BUDGET)
    }

    /// An interpreter with no variable, no function and the given budget.
    pub fn with_budget(budget: u64) -> (it: Self)
        ensures
            it.wf(),
            it.state() == (RunState { vars: Map::empty(), fns: Map::empty() }),
            it.budget() == budget,
    {
        let it = Interpreter { env: NameMap::new(), functions: NameMap::new(), budget };
        assert(functions_model(it.functions@) =~= Map::empty());
        it
    }

    /// The value of the variable `name`, if it is bound.
    pub fn value_of(&self, name: &str) -> (r: Option<i64>)
        requires
            self.wf(),
        ensures
            r == if self.state().vars.contains_key(name@) {
                Some(self.state().vars[name@])
            } else {
                None
            },
    {
        let key = String::from_str(name);
        match self.env.get(&key) {
            Some(v) => Some(*v),
            None => None,
        }
    }

    /// Whether a function `name` has been declared.
    pub fn has_function(&self, name: &str) -> (r: bool)
        requires
            self.wf(),
        ensures
            r == self.state().fns.contains_key(name@),
    {
        let key = String::from_str(name);
        self.functions.contains(&key)
    }

    /// Runs a program, statement by statement, on this interpreter's state.
    ///
    /// Succeeds exactly when no statement faults within the budget, and
    /// then leaves the state that the statements produce in order. Where a
    /// statement faults, the state is the one reached before the fault.
    pub fn interpret(&mut self, program: &[Stmt]) -> (r: Result<(), CompilerError>)
        requires
            old(self).wf(),
        ensures
            final(self).wf(),
            final(self).budget() == old(self).budget(),
            match r {
                Ok(_) => run_program(
                    old(self).state(),
                    stmts_model(program@),
                    0,
                    old(self).budget(),
                ) == Ok::<RunState, (RunState, RuntimeFault)>(final(self).state()),
                Err(e) => {
                    &&& run_program(
                        old(self).state(),
                        stmts_model(program@),
                        0,
                        old(self).budget(),
                    ) is Err
                    &&& run_program(
                        old(self).state(),
                        stmts_model(program@),
                        0,
                        old(self).budget(),
                    )->Err_0.0 == final(self).state()
                    &&& reports_runtime(
                        e,
                        run_program(
                            old(self).state(),
                            stmts_model(program@),
                            0,
                            old(self).budget(),
                        )->Err_0.1,
                    )
                },
            },
    {
        let ghost b = stmts_model(program@);
        let fuel = self.budget;
        let mut i: usize = 0;
        while i < program.len()
            invariant
                self.wf(),
                self.budget == fuel,
                fuel == old(self).budget,
                i <= program.len(),
                b == stmts_model(program@),
                run_program(old(self).state(), b, 0, fuel as nat) == run_program(
                    self.state(),
                    b,
                    i as int,
                    fuel as nat,
                ),
            decreases program.len() - i,
        {
            self.eval_stmt(&program[i], fuel)?;
            i += 1;
        }
        Ok(())
    }

    /// Runs the statements of a block up to the first `return`.
    #[verifier::loop_isolation(false)]
    fn eval_block(&mut self, block: &Vec<Stmt>, fuel: u64) -> (r: Result<
        Option<i64>,
        CompilerError,
    >)
        requires
            old(self).wf(),
        ensures
            final(self).wf(),
            final(self).budget() == old(self).budget(),
            run_agrees(
                r,
                final(self).state(),
                run_block(old(self).state(), stmts_model(block@), 0, fuel as nat),
            ),
        decreases fuel, 1int, *block, 1int,
    {
        let ghost b = stmts_model(block@);
        let mut i: usize = 0;
        while i < block.len()
            invariant
                self.wf(),
                self.budget == old(self).budget,
                i <= block.len(),
                run_block(old(self).state(), b, 0, fuel as nat) == run_block(
                    self.state(),
                    b,
                    i as int,
                    fuel as nat,
                ),
            decreases block.len() - i,
        {
            match self.eval_stmt(&block[i], fuel)? {
                Some(v) => {
                    return Ok(Some(v));
                },
                None => {},
            }
            i += 1;
        }
        Ok(None)
    }

    /// Runs the rounds of a `while` loop.
    #[verifier::rlimit(60)]
    #[verifier::loop_isolation(false)]
    fn eval_while(&mut self, cond: &Expr, body: &Vec<Stmt>, fuel: u64) -> (r: Result<
        Option<i64>,
        CompilerError,
    >)
        requires
            old(self).wf(),
        ensures
            final(self).wf(),
            final(self).budget() == old(self).budget(),
            run_agrees(
                r,
                final(self).state(),
                run_while(old(self).state(), cond@, stmts_model(body@), fuel as nat),
            ),
        decreases fuel, 1int, *body, 2int,
    {
        let ghost b = stmts_model(body@);
        let mut left = fuel;
        loop
            invariant
                self.wf(),
                self.budget == old(self).budget,
                left <= fuel,
                run_while(old(self).state(), cond@, b, fuel as nat) == run_while(
                    self.state(),
                    cond@,
                    b,
                    left as nat,
                ),
            decreases left,
        {
            if left == 0 {
                return Err(plain_runtime_error("Evaluation budget exhausted"));
            }
            left = left - 1;
            let v = self.eval_expr(cond, left)?;
            if v == 0 {
                return Ok(None);
            }
            match self.eval_block(body, left)? {
                Some(r) => {
                    return Ok(Some(r));
                },
                None => {},
            }
        }
    }

    /// Runs the rounds of a `for` loop whose variable is bound already.
    #[verifier::rlimit(60)]
    #[verifier::loop_isolation(false)]
    fn eval_for(
        &mut self,
        var: &String,
        cond: &Expr,
        step: &Expr,
        body: &Vec<Stmt>,
        fuel: u64,
    ) -> (r: Result<Option<i64>, CompilerError>)
        requires
            old(self).wf(),
        ensures
            final(self).wf(),
            final(self).budget() == old(self).budget(),
            run_agrees(
                r,
                final(self).state(),
                run_for(old(self).state(), var@, cond@, step@, stmts_model(body@), fuel as nat),
            ),
        decreases fuel, 1int, *body, 2int,
    {
        let ghost b = stmts_model(body@);
        let mut left = fuel;
        loop
            invariant
                self.wf(),
                self.budget == old(self).budget,
                left <= fuel,
                run_for(old(self).state(), var@, cond@, step@, b, fuel as nat) == run_for(
                    self.state(),
                    var@,
                    cond@,
                    step@,
                    b,
                    left as nat,
                ),
            decreases left,
        {
            if left == 0 {
                return Err(plain_runtime_error("Evaluation budget exhausted"));
            }
            left = left - 1;
            let v = self.eval_expr(cond, left)?;
            if v == 0 {
                return Ok(None);
            }
            match self.eval_block(body, left)? {
                Some(r) => {
                    return Ok(Some(r));
                },
                None => {},
            }
            let next = self.eval_expr(step, left)?;
            self.env.insert(var.clone(), next);
        }
    }

    /// Runs one statement.
    #[verifier::rlimit(60)]
    fn eval_stmt(&mut self, stmt: &Stmt, fuel: u64) -> (r: Result<Option<i64>, CompilerError>)
        requires
            old(self).wf(),
        ensures
            final(self).wf(),
            final(self).budget() == old(self).budget(),
            run_agrees(r, final(self).state(), run_stmt(old(self).state(), stmt@, fuel as nat)),
        decreases fuel, 1int, *stmt, 0int,
    {
        match stmt {
            Stmt::Let(name, expr) => {
                let value = self.eval_expr(expr, fuel)?;
                self.env.insert(name.clone(), value);
                Ok(None)
            },
            Stmt::Assign(name, expr) => {
                let value = self.eval_expr(expr, fuel)?;
                if self.env.contains(name) {
                    self.env.insert(name.clone(), value);
                    Ok(None)
                } else {
                    Err(named_runtime_error("Undefined variable: ", name))
                }
            },
            Stmt::If(cond, then_block, else_block) => {
                proof {
                    lemma_block_model(*then_block);
                    lemma_block_model(*else_block);
                }
                if self.eval_expr(cond, fuel)? != 0 {
                    self.eval_block(then_block, fuel)
                } else {
                    self.eval_block(else_block, fuel)
                }
            },
            Stmt::While(cond, body) => {
                proof {
                    lemma_block_model(*body);
                }
                self.eval_while(cond, body, fuel)
            },
            Stmt::DoWhile(body, cond) => {
                proof {
                    lemma_block_model(*body);
                }
                match self.eval_block(body, fuel)? {
                    Some(v) => Ok(Some(v)),
                    None => self.eval_while(cond, body, fuel),
                }
            },
            Stmt::For(var, start, cond, step, body) => {
                proof {
                    lemma_block_model(*body);
                }
                let first = self.eval_expr(start, fuel)?;
                self.env.insert(var.clone(), first);
                self.eval_for(var, cond, step, body, fuel)
            },
            Stmt::FnDecl(name, params, body) => {
                proof {
                    lemma_block_model(*body);
                }
                let ghost before = self.functions@;
                let def = FnDef { params: copy_names(params), body: copy_block(body) };
                self.functions.insert(name.clone(), def);
                assert(functions_model(self.functions@) =~= functions_model(before).insert(
                    name@,
                    (names_model(params@), stmts_model(body@)),
                ));
                Ok(None)
            },
            Stmt::Return(expr) => {
                let value = self.eval_expr(expr, fuel)?;
                Ok(Some(value))
            },
            Stmt::Expr(expr) => {
                self.eval_expr(expr, fuel)?;
                Ok(None)
            },
        }
    }

    /// The value of an expression; the interpreter's own state stays as it
    /// is, whatever a called function does to its copy.
    #[verifier::rlimit(60)]
    #[verifier::loop_isolation(false)]
    fn eval_expr(&self, expr: &Expr, fuel: u64) -> (r: Result<i64, CompilerError>)
        requires
            self.wf(),
        ensures
            value_agrees(r, eval(self.state(), expr@, fuel as nat)),
        decreases fuel, 0int, *expr, 0int,
    {
        match expr {
            Expr::Number(n) => Ok(*n),
            Expr::Bool(b) => Ok(if *b {
                1
            } else {
                0
            }),
            Expr::Variable(name) => match self.env.get(name) {
                Some(v) => Ok(*v),
                None => Err(named_runtime_error("Undefined variable: ", name)),
            },
            Expr::Binary(lhs, op, rhs) => {
                let l = self.eval_expr(lhs, fuel)?;
                let r = self.eval_expr(rhs, fuel)?;
                apply(*op, l, r)
            },
            Expr::Call(name, args) => {
                proof {
                    lemma_call_model(*name, *args);
                }
                let def = match self.functions.get(name) {
                    Some(def) => def,
                    None => {
                        return Err(named_runtime_error("Undefined function: ", name));
                    },
                };
                if args.len() != def.params.len() {
                    return Err(named_runtime_error("Incorrect argument count in call to ", name));
                }
                let ghost st = self.state();
                let ghost params = names_model(def.params@);
                let ghost models = expr@->Call_1;
                let mut new_env = copy_env(&self.env);
                let mut i: usize = 0;
                while i < args.len()
                    invariant
                        new_env.wf(),
                        i <= args.len(),
                        bind_args(st, st.vars, params, models, 0, fuel as nat) == bind_args(
                            st,
                            new_env@,
                            params,
                            models,
                            i as int,
                            fuel as nat,
                        ),
                    decreases args.len() - i,
                {
                    let value = self.eval_expr(&args[i], fuel)?;
                    new_env.insert(def.params[i].clone(), value);
                    i += 1;
                }
                if fuel < CALL_COST {
                    return Err(plain_runtime_error("Evaluation budget exhausted"));
                }
                let mut callee = Interpreter {
                    env: new_env,
                    functions: copy_functions(&self.functions),
                    budget: self.budget,
                };
                match callee.eval_block(&def.body, fuel - CALL_COST)? {
                    Some(v) => Ok(v),
                    None => Ok(0),
                }
            },
        }
    }
}

} // verus!
