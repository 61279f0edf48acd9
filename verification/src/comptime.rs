//! Compile-time evaluation of `comptime fn` calls and the folding pass that
//! replaces such calls, when all their arguments are constants, by the
//! value they compute.
//!
//! Floating-point values are carried as IEEE-754 binary64 bit patterns.
//! Negation and the comparisons of such values are computed exactly on the
//! bits; floating-point addition, subtraction, multiplication and division
//! are not evaluated here, so a call that needs one is left in place.
use vstd::prelude::*;
use crate::ast::{
    group_ast_views, BinaryOp, Block, Expr, Function, Literal, MatchArm, MatchBody, Param, Pattern, SpecArm,
    SpecBlock, SpecBody, SpecExpr, SpecStmt, Stmt, UnaryOp, Kernel, KernelItem, File, copy_params,
    copy_opt_type, copy_block, exprs_view, arms_view, stmts_view, lemma_stmts_view,
};
use crate::text::str_eq;
use crate::assoc::{assoc_map, find_last, lemma_assoc_absent, lemma_assoc_last, lemma_assoc_update};
pub use crate::comptime_fold::{fold_comptime_calls, ComptimeFoldStats};

verus! {

broadcast use group_ast_views;

/// A compile-time value.
#[derive(Debug, PartialEq)]
pub enum ComptimeValue {
    Int(i64),
    /// IEEE-754 binary64 bit pattern.
    Float(u64),
    Bool(bool),
    Char(char),
    NoneValue,
    SomeOf(Box<ComptimeValue>),
}

pub fn copy_value(v: &ComptimeValue) -> (r: ComptimeValue)
    ensures
        r == *v,
    decreases v,
{
    match v {
        ComptimeValue::Int(n) => ComptimeValue::Int(*n),
        ComptimeValue::Float(b) => ComptimeValue::Float(*b),
        ComptimeValue::Bool(b) => ComptimeValue::Bool(*b),
        ComptimeValue::Char(c) => ComptimeValue::Char(*c),
        ComptimeValue::NoneValue => ComptimeValue::NoneValue,
        ComptimeValue::SomeOf(x) => ComptimeValue::SomeOf(Box::new(copy_value(x))),
    }
}

impl Clone for ComptimeValue {
    fn clone(&self) -> (r: Self)
        ensures
            r == *self,
    {
        copy_value(self)
    }
}

/// The literal expression that denotes a value.
pub open spec fn value_to_expr(v: ComptimeValue) -> SpecExpr
    decreases v,
{
    match v {
        ComptimeValue::Int(n) => SpecExpr::Literal(Literal::Int(n)),
        ComptimeValue::Float(b) => SpecExpr::Literal(Literal::Float(b)),
        ComptimeValue::Bool(b) => SpecExpr::Literal(Literal::Bool(b)),
        ComptimeValue::Char(c) => SpecExpr::Literal(Literal::Char(c)),
        ComptimeValue::NoneValue => SpecExpr::NoneValue,
        ComptimeValue::SomeOf(x) => SpecExpr::SomeOf(Box::new(value_to_expr(*x))),
    }
}

impl ComptimeValue {
    /// Convert to an AST expression for constant folding.
    pub fn to_expr(&self) -> (e: Expr)
        ensures
            e@ == value_to_expr(*self),
        decreases self,
    {
        match self {
            ComptimeValue::Int(n) => Expr::Literal(Literal::Int(*n)),
            ComptimeValue::Float(b) => Expr::Literal(Literal::Float(*b)),
            ComptimeValue::Bool(b) => Expr::Literal(Literal::Bool(*b)),
            ComptimeValue::Char(c) => Expr::Literal(Literal::Char(*c)),
            ComptimeValue::NoneValue => Expr::NoneValue,
            ComptimeValue::SomeOf(inner) => Expr::SomeOf(Box::new(inner.to_expr())),
        }
    }
}

/// A value written back as an expression reads as the same constant, so a
/// folded call can serve as the constant argument of another call.
pub proof fn lemma_value_expr_round_trip(v: ComptimeValue)
    ensures
        const_value(value_to_expr(v)) == Some(v),
    decreases v,
{
    if let ComptimeValue::SomeOf(x) = v {
        lemma_value_expr_round_trip(*x);
    }
}

/// After a kernel is registered, each of its comptime functions is known by
/// its name, with the parameters and body of the last function of that name.
pub proof fn lemma_registered_functions_known(t: FnTable, items: Seq<KernelItem>, j: int)
    requires
        0 <= j < items.len(),
    ensures
        items[j] matches KernelItem::ComptimeFn(f) ==> register_items(t, items).contains_key(
            f.name@,
        ),
    decreases items.len(),
{
    if j < items.len() - 1 {
        lemma_registered_functions_known(t, items.drop_last(), j);
    }
}

/// A call whose arguments are not all constants is never evaluated.
pub proof fn lemma_non_constant_args_not_evaluated(
    t: FnTable,
    name: Seq<char>,
    args: Seq<SpecExpr>,
    mx: int,
)
    requires
        const_values(args) is None,
    ensures
        try_eval_spec(t, name, args, mx) is None,
{
}

// ---------------------------------------------------------------------------
// Floating-point values, on their bit patterns
// ---------------------------------------------------------------------------
pub open spec fn float_is_nan(b: u64) -> bool {
    (b & 0x7ff0_0000_0000_0000u64) == 0x7ff0_0000_0000_0000u64 && (b & 0x000f_ffff_ffff_ffffu64)
        != 0
}

/// The position of a non-NaN value on the number line, as an integer that
/// orders the values as the reals they denote (both zeros map to 0).
pub open spec fn float_key(b: u64) -> int {
    let mag = (b & 0x7fff_ffff_ffff_ffffu64) as int;
    if (b & 0x8000_0000_0000_0000u64) != 0 {
        -mag
    } else {
        mag
    }
}

pub open spec fn float_eq(a: u64, b: u64) -> bool {
    !float_is_nan(a) && !float_is_nan(b) && float_key(a) == float_key(b)
}

pub open spec fn float_lt(a: u64, b: u64) -> bool {
    !float_is_nan(a) && !float_is_nan(b) && float_key(a) < float_key(b)
}

pub open spec fn float_le(a: u64, b: u64) -> bool {
    !float_is_nan(a) && !float_is_nan(b) && float_key(a) <= float_key(b)
}

pub open spec fn float_neg(b: u64) -> u64 {
    b ^ 0x8000_0000_0000_0000u64
}

pub(crate) fn float_is_nan_exec(b: u64) -> (r: bool)
    ensures
        r == float_is_nan(b),
{
    (b & 0x7ff0_0000_0000_0000u64) == 0x7ff0_0000_0000_0000u64 && (b & 0x000f_ffff_ffff_ffffu64)
        != 0
}

pub(crate) fn float_key_exec(b: u64) -> (r: i128)
    ensures
        r == float_key(b),
{
    let mag = (b & 0x7fff_ffff_ffff_ffffu64) as i128;
    if (b & 0x8000_0000_0000_0000u64) != 0 {
        -mag
    } else {
        mag
    }
}

// ---------------------------------------------------------------------------
// Operations on values
// ---------------------------------------------------------------------------
/// Equality of values as `==` on `ComptimeValue` decides it (floats by
/// IEEE-754 equality).
pub open spec fn value_eq(a: ComptimeValue, b: ComptimeValue) -> bool
    decreases a,
{
    match (a, b) {
        (ComptimeValue::Int(x), ComptimeValue::Int(y)) => x == y,
        (ComptimeValue::Float(x), ComptimeValue::Float(y)) => float_eq(x, y),
        (ComptimeValue::Bool(x), ComptimeValue::Bool(y)) => x == y,
        (ComptimeValue::Char(x), ComptimeValue::Char(y)) => x == y,
        (ComptimeValue::NoneValue, ComptimeValue::NoneValue) => true,
        (ComptimeValue::SomeOf(x), ComptimeValue::SomeOf(y)) => value_eq(*x, *y),
        _ => false,
    }
}

/// The result of a binary operation; `Err` where the operation is not
/// defined on the operands (including division by zero, the overflowing
/// `i64::MIN / -1` and floating-point arithmetic).
pub open spec fn binary_result(op: BinaryOp, l: ComptimeValue, r: ComptimeValue) -> Result<
    ComptimeValue,
    (),
> {
    match (l, r) {
        (ComptimeValue::Int(a), ComptimeValue::Int(b)) => match op {
            BinaryOp::Add => Ok(ComptimeValue::Int(a.wrapping_add(b))),
            BinaryOp::Sub => Ok(ComptimeValue::Int(a.wrapping_sub(b))),
            BinaryOp::Mul => Ok(ComptimeValue::Int(a.wrapping_mul(b))),
            BinaryOp::Div => match a.checked_div(b) {
                Some(q) => Ok(ComptimeValue::Int(q)),
                None => Err(()),
            },
            BinaryOp::Mod => match a.checked_rem(b) {
                Some(q) => Ok(ComptimeValue::Int(q)),
                None => Err(()),
            },
            BinaryOp::Eq => Ok(ComptimeValue::Bool(a == b)),
            BinaryOp::Ne => Ok(ComptimeValue::Bool(a != b)),
            BinaryOp::Lt => Ok(ComptimeValue::Bool(a < b)),
            BinaryOp::Le => Ok(ComptimeValue::Bool(a <= b)),
            BinaryOp::Gt => Ok(ComptimeValue::Bool(a > b)),
            BinaryOp::Ge => Ok(ComptimeValue::Bool(a >= b)),
            _ => Err(()),
        },
        (ComptimeValue::Float(a), ComptimeValue::Float(b)) => match op {
            BinaryOp::Eq => Ok(ComptimeValue::Bool(float_eq(a, b))),
            BinaryOp::Ne => Ok(ComptimeValue::Bool(!float_eq(a, b))),
            BinaryOp::Lt => Ok(ComptimeValue::Bool(float_lt(a, b))),
            BinaryOp::Le => Ok(ComptimeValue::Bool(float_le(a, b))),
            BinaryOp::Gt => Ok(ComptimeValue::Bool(float_lt(b, a))),
            BinaryOp::Ge => Ok(ComptimeValue::Bool(float_le(b, a))),
            _ => Err(()),
        },
        (ComptimeValue::Bool(a), ComptimeValue::Bool(b)) => match op {
            BinaryOp::Eq => Ok(ComptimeValue::Bool(a == b)),
            BinaryOp::Ne => Ok(ComptimeValue::Bool(a != b)),
            BinaryOp::And => Ok(ComptimeValue::Bool(a && b)),
            BinaryOp::Or => Ok(ComptimeValue::Bool(a || b)),
            _ => Err(()),
        },
        _ => Err(()),
    }
}

/// The result of a unary operation (`Err` for the negation of `i64::MIN`).
pub open spec fn unary_result(op: UnaryOp, v: ComptimeValue) -> Result<ComptimeValue, ()> {
    match (op, v) {
        (UnaryOp::Neg, ComptimeValue::Int(n)) => if n == i64::MIN {
            Err(())
        } else {
            Ok(ComptimeValue::Int((-n) as i64))
        },
        (UnaryOp::Neg, ComptimeValue::Float(b)) => Ok(ComptimeValue::Float(float_neg(b))),
        (UnaryOp::Not, ComptimeValue::Bool(b)) => Ok(ComptimeValue::Bool(!b)),
        _ => Err(()),
    }
}

pub open spec fn literal_value(l: Literal) -> Option<ComptimeValue> {
    match l {
        Literal::Int(n) => Some(ComptimeValue::Int(n)),
        Literal::Float(b) => Some(ComptimeValue::Float(b)),
        Literal::Bool(b) => Some(ComptimeValue::Bool(b)),
        Literal::Char(c) => Some(ComptimeValue::Char(c)),
        _ => None,
    }
}

/// The constant an argument expression denotes, if it is one.
pub open spec fn const_value(e: SpecExpr) -> Option<ComptimeValue>
    decreases e,
{
    match e {
        SpecExpr::Literal(l) => literal_value(l),
        SpecExpr::SomeOf(inner) => match const_value(*inner) {
            Some(v) => Some(ComptimeValue::SomeOf(Box::new(v))),
            None => None,
        },
        SpecExpr::NoneValue => Some(ComptimeValue::NoneValue),
        SpecExpr::Unary { op: UnaryOp::Neg, expr } => match const_value(*expr) {
            Some(ComptimeValue::Int(n)) => if n == i64::MIN {
                None
            } else {
                Some(ComptimeValue::Int((-n) as i64))
            },
            Some(ComptimeValue::Float(b)) => Some(ComptimeValue::Float(float_neg(b))),
            _ => None,
        },
        _ => None,
    }
}

/// Whether a pattern matches a value, and the binding it makes:
/// `None` when it does not match, `Some(None)` when it matches without a
/// binding.
pub open spec fn pattern_match(p: Pattern, v: ComptimeValue) -> Option<
    Option<(Seq<char>, ComptimeValue)>,
> {
    match p {
        Pattern::Literal(l) => match literal_value(l) {
            Some(pv) => if value_eq(pv, v) {
                Some(None)
            } else {
                None
            },
            None => None,
        },
        Pattern::Bool(b) => match v {
            ComptimeValue::Bool(x) => if x == b {
                Some(None)
            } else {
                None
            },
            _ => None,
        },
        Pattern::Ident(name) => if name@ == "_"@ {
            Some(None)
        } else {
            Some(Some((name@, v)))
        },
        Pattern::SomeOf(name) => match v {
            ComptimeValue::SomeOf(inner) => if name@ == "_"@ {
                Some(None)
            } else {
                Some(Some((name@, *inner)))
            },
            _ => None,
        },
        Pattern::NoneValue => match v {
            ComptimeValue::NoneValue => Some(None),
            _ => None,
        },
        _ => None,
    }
}

pub open spec fn bind(env: Map<Seq<char>, ComptimeValue>, b: Option<(Seq<char>, ComptimeValue)>) -> Map<
    Seq<char>,
    ComptimeValue,
> {
    match b {
        Some((k, v)) => env.insert(k, v),
        None => env,
    }
}

// ---------------------------------------------------------------------------
// Semantics of evaluation
// ---------------------------------------------------------------------------
/// A registered comptime function: its parameters and body.
pub ghost struct FnDef {
    pub params: Seq<Param>,
    pub body: SpecBlock,
}

pub type FnTable = Map<Seq<char>, FnDef>;

pub type Env = Map<Seq<char>, ComptimeValue>;

/// How evaluation leaves a block or statement.
pub enum Flow {
    /// Go on; the value of the last expression statement so far.
    Continue(ComptimeValue),
    Return(ComptimeValue),
    Break,
    LoopContinue,
}

/// The number of iterations after which a `while` or `loop` is abandoned.
pub open spec fn loop_limit() -> int {
    100000
}

/// A measure bigger than any count of loop iterations.
pub open spec fn stmt_rank() -> int {
    0x1_0000_0000_0000_0000_0000
}

/// The environment that binds the parameters to the arguments, in order.
pub open spec fn bind_params(params: Seq<Param>, vals: Seq<ComptimeValue>) -> Env
    decreases params.len(),
{
    if params.len() == 0 || vals.len() == 0 {
        Map::empty()
    } else {
        bind_params(params.drop_last(), vals.drop_last()).insert(params.last().name@, vals.last())
    }
}

pub open spec fn eval_expr(t: FnTable, e: SpecExpr, env: Env, d: int, mx: int) -> Result<
    ComptimeValue,
    (),
>
    decreases mx + 1 - d, e, 0int,
{
    match e {
        SpecExpr::Literal(l) => match literal_value(l) {
            Some(v) => Ok(v),
            None => Err(()),
        },
        SpecExpr::Ident(name) => if env.contains_key(name@) {
            Ok(env[name@])
        } else {
            Err(())
        },
        SpecExpr::Binary { op, left, right } => match eval_expr(t, *left, env, d, mx) {
            Ok(l) => match eval_expr(t, *right, env, d, mx) {
                Ok(r) => binary_result(op, l, r),
                Err(_) => Err(()),
            },
            Err(_) => Err(()),
        },
        SpecExpr::Unary { op, expr } => match eval_expr(t, *expr, env, d, mx) {
            Ok(v) => unary_result(op, v),
            Err(_) => Err(()),
        },
        SpecExpr::If { condition, then_expr, else_expr } => match eval_expr(
            t,
            *condition,
            env,
            d,
            mx,
        ) {
            Ok(ComptimeValue::Bool(b)) => if b {
                eval_expr(t, *then_expr, env, d, mx)
            } else {
                eval_expr(t, *else_expr, env, d, mx)
            },
            _ => Err(()),
        },
        SpecExpr::Block(b) => if d + 1 > mx {
            Err(())
        } else {
            eval_block_value(t, b, env, d + 1, mx)
        },
        SpecExpr::Call { func, args } => match *func {
            SpecExpr::Ident(name) => if t.contains_key(name@) {
                match eval_args(t, args, 0, env, d, mx) {
                    Ok(vals) => if vals.len() != t[name@].params.len() || d + 1 > mx {
                        Err(())
                    } else {
                        eval_block_value(
                            t,
                            t[name@].body,
                            bind_params(t[name@].params, vals),
                            d + 1,
                            mx,
                        )
                    },
                    Err(_) => Err(()),
                }
            } else {
                Err(())
            },
            _ => Err(()),
        },
        SpecExpr::SomeOf(inner) => match eval_expr(t, *inner, env, d, mx) {
            Ok(v) => Ok(ComptimeValue::SomeOf(Box::new(v))),
            Err(_) => Err(()),
        },
        SpecExpr::NoneValue => Ok(ComptimeValue::NoneValue),
        SpecExpr::Match { expr, arms } => match eval_expr(t, *expr, env, d, mx) {
            Ok(v) => eval_match_expr(t, arms, 0, v, env, d, mx),
            Err(_) => Err(()),
        },
        _ => Err(()),
    }
}

/// The values of the arguments from index `i` on, evaluated in order.
pub open spec fn eval_args(
    t: FnTable,
    args: Seq<SpecExpr>,
    i: int,
    env: Env,
    d: int,
    mx: int,
) -> Result<Seq<ComptimeValue>, ()>
    decreases mx + 1 - d, args, args.len() - i,
{
    if i < 0 || i >= args.len() {
        Ok(Seq::empty())
    } else {
        match eval_expr(t, args[i], env, d, mx) {
            Ok(v) => match eval_args(t, args, i + 1, env, d, mx) {
                Ok(rest) => Ok(seq![v] + rest),
                Err(_) => Err(()),
            },
            Err(_) => Err(()),
        }
    }
}

/// A `match` expression from arm `i` on.
pub open spec fn eval_match_expr(
    t: FnTable,
    arms: Seq<SpecArm>,
    i: int,
    v: ComptimeValue,
    env: Env,
    d: int,
    mx: int,
) -> Result<ComptimeValue, ()>
    decreases mx + 1 - d, arms, arms.len() - i,
{
    if i < 0 || i >= arms.len() {
        Ok(ComptimeValue::Int(0))
    } else {
        match pattern_match(arms[i].pattern, v) {
            Some(b) => match arms[i].body {
                SpecBody::Expr(e) => eval_expr(t, e, bind(env, b), d, mx),
                SpecBody::Block(blk) => if d + 1 > mx {
                    Err(())
                } else {
                    eval_block_value(t, blk, bind(env, b), d + 1, mx)
                },
            },
            None => eval_match_expr(t, arms, i + 1, v, env, d, mx),
        }
    }
}

/// The value of a block: what it returns, or the value of its last
/// expression statement (0 when there is none).
#[verifier::opaque]
pub open spec fn eval_block_value(t: FnTable, b: SpecBlock, env: Env, d: int, mx: int) -> Result<
    ComptimeValue,
    (),
>
    decreases mx + 1 - d, b, 1int,
{
    match eval_block_cf(t, b, env, d, mx) {
        Ok((Flow::Continue(v), _)) => Ok(v),
        Ok((Flow::Return(v), _)) => Ok(v),
        _ => Err(()),
    }
}

/// A block: how it ends and the environment it leaves.
#[verifier::opaque]
pub open spec fn eval_block_cf(t: FnTable, b: SpecBlock, env: Env, d: int, mx: int) -> Result<
    (Flow, Env),
    (),
>
    decreases mx + 1 - d, b, 0int,
{
    if d > mx {
        Err(())
    } else {
        eval_stmts(t, b.statements, 0, env, d, mx, ComptimeValue::Int(0))
    }
}

/// The statements from index `i` on.
#[verifier::opaque]
pub open spec fn eval_stmts(
    t: FnTable,
    ss: Seq<SpecStmt>,
    i: int,
    env: Env,
    d: int,
    mx: int,
    result: ComptimeValue,
) -> Result<(Flow, Env), ()>
    decreases mx + 1 - d, ss, ss.len() - i,
{
    if i < 0 || i >= ss.len() {
        Ok((Flow::Continue(result), env))
    } else {
        match eval_stmt(t, ss[i], env, d, mx, result) {
            Ok((Flow::Continue(v), env2)) => eval_stmts(t, ss, i + 1, env2, d, mx, v),
            Ok((f, env2)) => Ok((f, env2)),
            Err(_) => Err(()),
        }
    }
}

/// A nested block, one level deeper.
#[verifier::opaque]
pub open spec fn eval_nested(t: FnTable, b: SpecBlock, env: Env, d: int, mx: int) -> Result<
    (Flow, Env),
    (),
>
    decreases mx + 1 - d, b, 2int,
{
    if d + 1 > mx {
        Err(())
    } else {
        eval_block_cf(t, b, env, d + 1, mx)
    }
}

/// One statement, given the value of the last expression statement so far.
#[verifier::opaque]
pub open spec fn eval_stmt(
    t: FnTable,
    s: SpecStmt,
    env: Env,
    d: int,
    mx: int,
    result: ComptimeValue,
) -> Result<(Flow, Env), ()>
    decreases mx + 1 - d, s, stmt_rank(),
{
    match s {
        SpecStmt::Let { name, value, .. } => match eval_expr(t, value, env, d, mx) {
            Ok(v) => Ok((Flow::Continue(result), env.insert(name@, v))),
            Err(_) => Err(()),
        },
        SpecStmt::Assign { target, value } => match target {
            SpecExpr::Ident(name) => match eval_expr(t, value, env, d, mx) {
                Ok(v) => Ok((Flow::Continue(result), env.insert(name@, v))),
                Err(_) => Err(()),
            },
            _ => Err(()),
        },
        SpecStmt::Return(Some(e)) => match eval_expr(t, e, env, d, mx) {
            Ok(v) => Ok((Flow::Return(v), env)),
            Err(_) => Err(()),
        },
        SpecStmt::Return(None) => Ok((Flow::Return(ComptimeValue::Int(0)), env)),
        SpecStmt::If { condition, then_block, else_block } => match eval_expr(
            t,
            condition,
            env,
            d,
            mx,
        ) {
            Ok(ComptimeValue::Bool(b)) => if b {
                eval_nested(t, then_block, env, d, mx)
            } else {
                match else_block {
                    Some(eb) => eval_nested(t, eb, env, d, mx),
                    None => Ok((Flow::Continue(result), env)),
                }
            },
            _ => Err(()),
        },
        SpecStmt::Match { expr, arms } => match eval_expr(t, expr, env, d, mx) {
            Ok(v) => eval_match_stmt(t, arms, 0, v, env, d, mx, result),
            Err(_) => Err(()),
        },
        SpecStmt::Expr(e) => match eval_expr(t, e, env, d, mx) {
            Ok(v) => Ok((Flow::Continue(v), env)),
            Err(_) => Err(()),
        },
        SpecStmt::For { iter, .. } => match iter {
            SpecExpr::Range { start, end, inclusive } => match eval_expr(t, *start, env, d, mx) {
                Ok(sv) => match eval_expr(t, *end, env, d, mx) {
                    Ok(ev) => match (sv, ev) {
                        (ComptimeValue::Int(a), ComptimeValue::Int(b)) => eval_for(
                            t,
                            s,
                            a as int,
                            if inclusive {
                                b + 1
                            } else {
                                b as int
                            },
                            env,
                            d,
                            mx,
                            result,
                        ),
                        _ => Err(()),
                    },
                    Err(_) => Err(()),
                },
                Err(_) => Err(()),
            },
            _ => Err(()),
        },
        SpecStmt::Loop(_) => eval_loop(t, s, 0, env, d, mx, result),
        SpecStmt::While { .. } => eval_while(t, s, 0, env, d, mx, result),
        SpecStmt::Break => Ok((Flow::Break, env)),
        SpecStmt::Continue => Ok((Flow::LoopContinue, env)),
        _ => Err(()),
    }
}

/// A `match` statement from arm `i` on; the environment of the arm is not
/// kept.
pub open spec fn eval_match_stmt(
    t: FnTable,
    arms: Seq<SpecArm>,
    i: int,
    v: ComptimeValue,
    env: Env,
    d: int,
    mx: int,
    result: ComptimeValue,
) -> Result<(Flow, Env), ()>
    decreases mx + 1 - d, arms, arms.len() - i,
{
    if i < 0 || i >= arms.len() {
        Ok((Flow::Continue(result), env))
    } else {
        match pattern_match(arms[i].pattern, v) {
            Some(b) => match arms[i].body {
                SpecBody::Expr(e) => match eval_expr(t, e, bind(env, b), d, mx) {
                    Ok(x) => Ok((Flow::Continue(x), env)),
                    Err(_) => Err(()),
                },
                SpecBody::Block(blk) => match eval_nested(t, blk, bind(env, b), d, mx) {
                    Ok((f, _)) => Ok((f, env)),
                    Err(_) => Err(()),
                },
            },
            None => eval_match_stmt(t, arms, i + 1, v, env, d, mx, result),
        }
    }
}

/// The iterations of a `for` loop over `i .. hi`.
#[verifier::opaque]
pub open spec fn eval_for(
    t: FnTable,
    s: SpecStmt,
    i: int,
    hi: int,
    env: Env,
    d: int,
    mx: int,
    result: ComptimeValue,
) -> Result<(Flow, Env), ()>
    decreases mx + 1 - d, s, if hi > i {
        hi - i
    } else {
        0
    },
{
    match s {
        SpecStmt::For { var, body, .. } => if i >= hi {
            Ok((Flow::Continue(result), env))
        } else {
            let env1 = env.insert(var@, ComptimeValue::Int(i as i64));
            match eval_nested(t, body, env1, d, mx) {
                Ok((Flow::Return(v), env2)) => Ok((Flow::Return(v), env2)),
                Ok((Flow::Break, env2)) => Ok((Flow::Continue(result), env2)),
                Ok((Flow::LoopContinue, env2)) => eval_for(t, s, i + 1, hi, env2, d, mx, result),
                Ok((Flow::Continue(v), env2)) => eval_for(t, s, i + 1, hi, env2, d, mx, v),
                Err(_) => Err(()),
            }
        },
        _ => Err(()),
    }
}

/// A `loop`, after `n` iterations.
#[verifier::opaque]
pub open spec fn eval_loop(
    t: FnTable,
    s: SpecStmt,
    n: int,
    env: Env,
    d: int,
    mx: int,
    result: ComptimeValue,
) -> Result<(Flow, Env), ()>
    decreases mx + 1 - d, s, loop_limit() + 1 - n,
{
    match s {
        SpecStmt::Loop(body) => if n + 1 > loop_limit() || n < 0 {
            Err(())
        } else {
            match eval_nested(t, body, env, d, mx) {
                Ok((Flow::Return(v), env2)) => Ok((Flow::Return(v), env2)),
                Ok((Flow::Break, env2)) => Ok((Flow::Continue(result), env2)),
                Ok((Flow::LoopContinue, env2)) => eval_loop(t, s, n + 1, env2, d, mx, result),
                Ok((Flow::Continue(v), env2)) => eval_loop(t, s, n + 1, env2, d, mx, v),
                Err(_) => Err(()),
            }
        },
        _ => Err(()),
    }
}

/// A `while` loop, after `n` iterations.
#[verifier::opaque]
pub open spec fn eval_while(
    t: FnTable,
    s: SpecStmt,
    n: int,
    env: Env,
    d: int,
    mx: int,
    result: ComptimeValue,
) -> Result<(Flow, Env), ()>
    decreases mx + 1 - d, s, loop_limit() + 1 - n,
{
    match s {
        SpecStmt::While { condition, body } => if n + 1 > loop_limit() || n < 0 {
            Err(())
        } else {
            match eval_expr(t, condition, env, d, mx) {
                Ok(cv) => {
                    let go = match cv {
                        ComptimeValue::Bool(b) => Some(b),
                        ComptimeValue::Int(k) => Some(k != 0),
                        _ => None,
                    };
                    match go {
                        None => Err(()),
                        Some(false) => Ok((Flow::Continue(result), env)),
                        Some(true) => match eval_nested(t, body, env, d, mx) {
                            Ok((Flow::Return(v), env2)) => Ok((Flow::Return(v), env2)),
                            Ok((Flow::Break, env2)) => Ok((Flow::Continue(result), env2)),
                            Ok((Flow::LoopContinue, env2)) => eval_while(
                                t,
                                s,
                                n + 1,
                                env2,
                                d,
                                mx,
                                result,
                            ),
                            Ok((Flow::Continue(v), env2)) => eval_while(
                                t,
                                s,
                                n + 1,
                                env2,
                                d,
                                mx,
                                v,
                            ),
                            Err(_) => Err(()),
                        },
                    }
                },
                Err(_) => Err(()),
            }
        },
        _ => Err(()),
    }
}

/// An executable outcome agrees with the semantics: the same flow and the
/// same final environment, or failure on both sides.
pub open spec fn flow_agrees(r: Result<Flow, ()>, sem: Result<(Flow, Env), ()>, env: Env) -> bool {
    match sem {
        Ok((f, e)) => r == Ok::<Flow, ()>(f) && env == e,
        Err(_) => r is Err,
    }
}

// One-step unfoldings of the evaluation of blocks, statements and loops.
proof fn lemma_block_value(t: FnTable, b: SpecBlock, env: Env, d: int, mx: int)
    ensures
        eval_block_value(t, b, env, d, mx) == match eval_block_cf(t, b, env, d, mx) {
            Ok((Flow::Continue(v), _)) => Ok(v),
            Ok((Flow::Return(v), _)) => Ok(v),
            _ => Err(()),
        },
{
    reveal(eval_block_value);
    reveal(eval_block_cf);
}

proof fn lemma_block_cf(t: FnTable, b: SpecBlock, env: Env, d: int, mx: int)
    ensures
        eval_block_cf(t, b, env, d, mx) == if d > mx {
            Err(())
        } else {
            eval_stmts(t, b.statements, 0, env, d, mx, ComptimeValue::Int(0))
        },
{
    reveal(eval_block_cf);
    reveal(eval_stmts);
}

/// A nested block is the block one level deeper (both fail beyond the limit).
proof fn lemma_nested(t: FnTable, b: SpecBlock, env: Env, d: int, mx: int)
    ensures
        eval_nested(t, b, env, d, mx) == eval_block_cf(t, b, env, d + 1, mx),
{
    reveal(eval_nested);
    reveal(eval_block_cf);
    reveal(eval_stmts);
}

proof fn lemma_block_too_deep(t: FnTable, b: SpecBlock, env: Env, d: int, mx: int)
    requires
        d > mx,
    ensures
        eval_block_cf(t, b, env, d, mx) is Err,
        eval_block_value(t, b, env, d, mx) is Err,
{
    reveal(eval_block_cf);
    reveal(eval_block_value);
    reveal(eval_stmts);
}

proof fn lemma_stmts_step(
    t: FnTable,
    ss: Seq<SpecStmt>,
    i: int,
    env: Env,
    d: int,
    mx: int,
    result: ComptimeValue,
)
    requires
        0 <= i < ss.len(),
    ensures
        eval_stmts(t, ss, i, env, d, mx, result) == match eval_stmt(t, ss[i], env, d, mx, result) {
            Ok((Flow::Continue(v), env2)) => eval_stmts(t, ss, i + 1, env2, d, mx, v),
            Ok((f, env2)) => Ok((f, env2)),
            Err(_) => Err(()),
        },
{
    reveal(eval_stmts);
    reveal(eval_stmt);
}

proof fn lemma_stmts_end(
    t: FnTable,
    ss: Seq<SpecStmt>,
    i: int,
    env: Env,
    d: int,
    mx: int,
    result: ComptimeValue,
)
    requires
        i >= ss.len(),
    ensures
        eval_stmts(t, ss, i, env, d, mx, result) == Ok::<(Flow, Env), ()>(
            (Flow::Continue(result), env),
        ),
{
    reveal(eval_stmts);
    reveal(eval_stmt);
}

/// How one pass through a loop body continues the loop `next`.
pub open spec fn loop_next(
    r: Result<(Flow, Env), ()>,
    result: ComptimeValue,
    next: spec_fn(Env, ComptimeValue) -> Result<(Flow, Env), ()>,
) -> Result<(Flow, Env), ()> {
    match r {
        Ok((Flow::Return(v), env2)) => Ok((Flow::Return(v), env2)),
        Ok((Flow::Break, env2)) => Ok((Flow::Continue(result), env2)),
        Ok((Flow::LoopContinue, env2)) => next(env2, result),
        Ok((Flow::Continue(v), env2)) => next(env2, v),
        Err(_) => Err(()),
    }
}

proof fn lemma_for_step(
    t: FnTable,
    s: SpecStmt,
    var: String,
    body: SpecBlock,
    i: int,
    hi: int,
    env: Env,
    d: int,
    mx: int,
    result: ComptimeValue,
)
    requires
        s matches SpecStmt::For { var: v, body: b, .. } && v == var && b == body,
        i < hi,
    ensures
        eval_for(t, s, i, hi, env, d, mx, result) == loop_next(
            eval_block_cf(t, body, env.insert(var@, ComptimeValue::Int(i as i64)), d + 1, mx),
            result,
            |e: Env, r: ComptimeValue| eval_for(t, s, i + 1, hi, e, d, mx, r),
        ),
{
    reveal(eval_for);
    reveal(eval_nested);
    lemma_nested(t, body, env.insert(var@, ComptimeValue::Int(i as i64)), d, mx);
}

proof fn lemma_for_end(
    t: FnTable,
    s: SpecStmt,
    i: int,
    hi: int,
    env: Env,
    d: int,
    mx: int,
    result: ComptimeValue,
)
    requires
        s is For,
        i >= hi,
    ensures
        eval_for(t, s, i, hi, env, d, mx, result) == Ok::<(Flow, Env), ()>(
            (Flow::Continue(result), env),
        ),
{
    reveal(eval_for);
    reveal(eval_nested);
}

proof fn lemma_loop_step(
    t: FnTable,
    s: SpecStmt,
    body: SpecBlock,
    n: int,
    env: Env,
    d: int,
    mx: int,
    result: ComptimeValue,
)
    requires
        s == SpecStmt::Loop(body),
        0 <= n,
        n + 1 <= loop_limit(),
    ensures
        eval_loop(t, s, n, env, d, mx, result) == loop_next(
            eval_block_cf(t, body, env, d + 1, mx),
            result,
            |e: Env, r: ComptimeValue| eval_loop(t, s, n + 1, e, d, mx, r),
        ),
{
    reveal(eval_loop);
    reveal(eval_nested);
    lemma_nested(t, body, env, d, mx);
}

proof fn lemma_loop_limit(
    t: FnTable,
    s: SpecStmt,
    n: int,
    env: Env,
    d: int,
    mx: int,
    result: ComptimeValue,
)
    requires
        s is Loop || s is While,
        n + 1 > loop_limit(),
    ensures
        eval_loop(t, s, n, env, d, mx, result) is Err || s is While,
        eval_while(t, s, n, env, d, mx, result) is Err || s is Loop,
{
    reveal(eval_loop);
    reveal(eval_while);
    reveal(eval_nested);
}

/// The truth value of a `while` condition (`Bool`, or a nonzero `Int`).
pub open spec fn condition_truth(cv: ComptimeValue) -> Option<bool> {
    match cv {
        ComptimeValue::Bool(b) => Some(b),
        ComptimeValue::Int(k) => Some(k != 0),
        _ => None,
    }
}

proof fn lemma_while_step(
    t: FnTable,
    s: SpecStmt,
    condition: SpecExpr,
    body: SpecBlock,
    n: int,
    env: Env,
    d: int,
    mx: int,
    result: ComptimeValue,
)
    requires
        s == (SpecStmt::While { condition, body }),
        0 <= n,
        n + 1 <= loop_limit(),
    ensures
        eval_while(t, s, n, env, d, mx, result) == match eval_expr(t, condition, env, d, mx) {
            Ok(cv) => match condition_truth(cv) {
                None => Err(()),
                Some(false) => Ok((Flow::Continue(result), env)),
                Some(true) => loop_next(
                    eval_block_cf(t, body, env, d + 1, mx),
                    result,
                    |e: Env, r: ComptimeValue| eval_while(t, s, n + 1, e, d, mx, r),
                ),
            },
            Err(_) => Err(()),
        },
{
    reveal(eval_while);
    reveal(eval_nested);
    lemma_nested(t, body, env, d, mx);
}

proof fn lemma_stmt_if(t: FnTable, s: SpecStmt, env: Env, d: int, mx: int, result: ComptimeValue)
    requires
        s is If,
    ensures
        eval_stmt(t, s, env, d, mx, result) == match s {
            SpecStmt::If { condition, then_block, else_block } => match eval_expr(
                t,
                condition,
                env,
                d,
                mx,
            ) {
                Ok(ComptimeValue::Bool(b)) => if b {
                    eval_block_cf(t, then_block, env, d + 1, mx)
                } else {
                    match else_block {
                        Some(eb) => eval_block_cf(t, eb, env, d + 1, mx),
                        None => Ok((Flow::Continue(result), env)),
                    }
                },
                _ => Err(()),
            },
            _ => Err(()),
        },
{
    reveal(eval_stmt);
    reveal(eval_nested);
    if let SpecStmt::If { then_block, else_block, .. } = s {
        lemma_nested(t, then_block, env, d, mx);
        if let Some(eb) = else_block {
            lemma_nested(t, eb, env, d, mx);
        }
    }
}

proof fn lemma_stmt_for(t: FnTable, s: SpecStmt, env: Env, d: int, mx: int, result: ComptimeValue)
    requires
        s is For,
    ensures
        eval_stmt(t, s, env, d, mx, result) == match s {
            SpecStmt::For { iter, .. } => match iter {
                SpecExpr::Range { start, end, inclusive } => match eval_expr(t, *start, env, d, mx) {
                    Ok(sv) => match eval_expr(t, *end, env, d, mx) {
                        Ok(ev) => match (sv, ev) {
                            (ComptimeValue::Int(a), ComptimeValue::Int(b)) => eval_for(
                                t,
                                s,
                                a as int,
                                if inclusive {
                                    b + 1
                                } else {
                                    b as int
                                },
                                env,
                                d,
                                mx,
                                result,
                            ),
                            _ => Err(()),
                        },
                        Err(_) => Err(()),
                    },
                    Err(_) => Err(()),
                },
                _ => Err(()),
            },
            _ => Err(()),
        },
{
    reveal(eval_stmt);
    reveal(eval_for);
}

proof fn lemma_stmt_loop(t: FnTable, s: SpecStmt, env: Env, d: int, mx: int, result: ComptimeValue)
    requires
        s is Loop || s is While,
    ensures
        s is Loop ==> eval_stmt(t, s, env, d, mx, result) == eval_loop(t, s, 0, env, d, mx, result),
        s is While ==> eval_stmt(t, s, env, d, mx, result) == eval_while(
            t,
            s,
            0,
            env,
            d,
            mx,
            result,
        ),
{
    reveal(eval_stmt);
    reveal(eval_loop);
    reveal(eval_while);
}

proof fn lemma_match_expr_step(
    t: FnTable,
    arms: Seq<SpecArm>,
    i: int,
    v: ComptimeValue,
    env: Env,
    d: int,
    mx: int,
)
    requires
        0 <= i < arms.len(),
    ensures
        eval_match_expr(t, arms, i, v, env, d, mx) == match pattern_match(arms[i].pattern, v) {
            Some(b) => match arms[i].body {
                SpecBody::Expr(e) => eval_expr(t, e, bind(env, b), d, mx),
                SpecBody::Block(blk) => if d + 1 > mx {
                    Err(())
                } else {
                    eval_block_value(t, blk, bind(env, b), d + 1, mx)
                },
            },
            None => eval_match_expr(t, arms, i + 1, v, env, d, mx),
        },
{
    reveal(eval_match_expr);
    reveal(eval_block_value);
    reveal(eval_block_cf);
}

proof fn lemma_match_stmt_step(
    t: FnTable,
    arms: Seq<SpecArm>,
    i: int,
    v: ComptimeValue,
    env: Env,
    d: int,
    mx: int,
    result: ComptimeValue,
)
    requires
        0 <= i < arms.len(),
    ensures
        eval_match_stmt(t, arms, i, v, env, d, mx, result) == match pattern_match(
            arms[i].pattern,
            v,
        ) {
            Some(b) => match arms[i].body {
                SpecBody::Expr(e) => match eval_expr(t, e, bind(env, b), d, mx) {
                    Ok(x) => Ok((Flow::Continue(x), env)),
                    Err(_) => Err(()),
                },
                SpecBody::Block(blk) => match eval_block_cf(t, blk, bind(env, b), d + 1, mx) {
                    Ok((f, _)) => Ok((f, env)),
                    Err(_) => Err(()),
                },
            },
            None => eval_match_stmt(t, arms, i + 1, v, env, d, mx, result),
        },
{
    reveal(eval_match_stmt);
    reveal(eval_nested);
    reveal(eval_block_cf);
    if let Some(b) = pattern_match(arms[i].pattern, v) {
        if let SpecBody::Block(blk) = arms[i].body {
            lemma_nested(t, blk, bind(env, b), d, mx);
        }
    }
}

/// The constants the arguments denote, when all of them are constants.
pub open spec fn const_values(args: Seq<SpecExpr>) -> Option<Seq<ComptimeValue>>
    decreases args.len(),
{
    if args.len() == 0 {
        Some(Seq::empty())
    } else {
        match const_values(args.drop_last()) {
            Some(vs) => match const_value(args.last()) {
                Some(v) => Some(vs.push(v)),
                None => None,
            },
            None => None,
        }
    }
}

/// What `try_eval` computes: the value of a call of the comptime function
/// `name` on constant arguments, evaluated from depth 0 with the given
/// depth limit; `None` when the function is unknown, an argument is not a
/// constant, the argument count is wrong or evaluation fails.
pub open spec fn try_eval_spec(t: FnTable, name: Seq<char>, args: Seq<SpecExpr>, mx: int) -> Option<
    ComptimeValue,
> {
    if !t.contains_key(name) {
        None
    } else {
        match const_values(args) {
            None => None,
            Some(vals) => if vals.len() != t[name].params.len() {
                None
            } else {
                match eval_block_value(t, t[name].body, bind_params(t[name].params, vals), 0, mx) {
                    Ok(v) => Some(v),
                    Err(_) => None,
                }
            },
        }
    }
}

pub open spec fn id_value(v: ComptimeValue) -> ComptimeValue {
    v
}

/// A variable environment.
struct ValueEnv {
    entries: Vec<(String, ComptimeValue)>,
}

impl ValueEnv {
    spec fn view(&self) -> Env {
        assoc_map(self.entries@, |v: ComptimeValue| id_value(v))
    }

    fn new() -> (e: Self)
        ensures
            e.view() == Map::<Seq<char>, ComptimeValue>::empty(),
    {
        ValueEnv { entries: Vec::new() }
    }

    fn get(&self, name: &str) -> (r: Option<ComptimeValue>)
        ensures
            match r {
                Some(v) => self.view().contains_key(name@) && self.view()[name@] == v,
                None => !self.view().contains_key(name@),
            },
    {
        match find_last(&self.entries, name) {
            Some(i) => {
                proof {
                    lemma_assoc_last(self.entries@, |v: ComptimeValue| id_value(v), name@, i as int);
                }
                Some(copy_value(&self.entries[i].1))
            },
            None => {
                proof {
                    lemma_assoc_absent(self.entries@, |v: ComptimeValue| id_value(v), name@);
                }
                None
            },
        }
    }

    fn insert(&mut self, name: String, v: ComptimeValue)
        ensures
            final(self).view() == old(self).view().insert(name@, v),
    {
        match find_last(&self.entries, name.as_str()) {
            Some(i) => {
                proof {
                    lemma_assoc_update(
                        self.entries@,
                        |v: ComptimeValue| id_value(v),
                        name@,
                        i as int,
                        (name, v),
                    );
                }
                self.entries.set(i, (name, v));
            },
            None => {
                let ghost old_entries = self.entries@;
                self.entries.push((name, v));
                proof {
                    assert(self.entries@.drop_last() =~= old_entries);
                }
            },
        }
    }

    fn copy(&self) -> (r: Self)
        ensures
            r.view() == self.view(),
    {
        let mut entries: Vec<(String, ComptimeValue)> = Vec::new();
        let n = self.entries.len();
        for i in 0..n
            invariant
                n == self.entries@.len(),
                entries@ == self.entries@.subrange(0, i as int),
        {
            let e = (self.entries[i].0.clone(), copy_value(&self.entries[i].1));
            entries.push(e);
            assert(entries@ == self.entries@.subrange(0, i + 1));
        }
        assert(self.entries@.subrange(0, n as int) == self.entries@);
        ValueEnv { entries }
    }

    fn bind(&mut self, b: Option<(String, ComptimeValue)>)
        ensures
            final(self).view() == bind(
                old(self).view(),
                match b {
                    Some((k, v)) => Some((k@, v)),
                    None => None,
                },
            ),
    {
        match b {
            Some((k, v)) => self.insert(k, v),
            None => {},
        }
    }
}

// ---------------------------------------------------------------------------
// Executable operations on values
// ---------------------------------------------------------------------------
fn value_eq_exec(a: &ComptimeValue, b: &ComptimeValue) -> (r: bool)
    ensures
        r == value_eq(*a, *b),
    decreases a,
{
    match (a, b) {
        (ComptimeValue::Int(x), ComptimeValue::Int(y)) => *x == *y,
        (ComptimeValue::Float(x), ComptimeValue::Float(y)) => !float_is_nan_exec(*x)
            && !float_is_nan_exec(*y) && float_key_exec(*x) == float_key_exec(*y),
        (ComptimeValue::Bool(x), ComptimeValue::Bool(y)) => *x == *y,
        (ComptimeValue::Char(x), ComptimeValue::Char(y)) => *x == *y,
        (ComptimeValue::NoneValue, ComptimeValue::NoneValue) => true,
        (ComptimeValue::SomeOf(x), ComptimeValue::SomeOf(y)) => value_eq_exec(x, y),
        _ => false,
    }
}

fn eval_binary(op: BinaryOp, l: ComptimeValue, r: ComptimeValue) -> (res: Result<ComptimeValue, ()>)
    ensures
        res == binary_result(op, l, r),
{
    match (l, r) {
        (ComptimeValue::Int(a), ComptimeValue::Int(b)) => match op {
            BinaryOp::Add => Ok(ComptimeValue::Int(a.wrapping_add(b))),
            BinaryOp::Sub => Ok(ComptimeValue::Int(a.wrapping_sub(b))),
            BinaryOp::Mul => Ok(ComptimeValue::Int(a.wrapping_mul(b))),
            BinaryOp::Div => match a.checked_div(b) {
                Some(q) => Ok(ComptimeValue::Int(q)),
                None => Err(()),
            },
            BinaryOp::Mod => match a.checked_rem(b) {
                Some(q) => Ok(ComptimeValue::Int(q)),
                None => Err(()),
            },
            BinaryOp::Eq => Ok(ComptimeValue::Bool(a == b)),
            BinaryOp::Ne => Ok(ComptimeValue::Bool(a != b)),
            BinaryOp::Lt => Ok(ComptimeValue::Bool(a < b)),
            BinaryOp::Le => Ok(ComptimeValue::Bool(a <= b)),
            BinaryOp::Gt => Ok(ComptimeValue::Bool(a > b)),
            BinaryOp::Ge => Ok(ComptimeValue::Bool(a >= b)),
            _ => Err(()),
        },
        (ComptimeValue::Float(a), ComptimeValue::Float(b)) => {
            let nan = float_is_nan_exec(a) || float_is_nan_exec(b);
            let ka = float_key_exec(a);
            let kb = float_key_exec(b);
            match op {
                BinaryOp::Eq => Ok(ComptimeValue::Bool(!nan && ka == kb)),
                BinaryOp::Ne => Ok(ComptimeValue::Bool(!(!nan && ka == kb))),
                BinaryOp::Lt => Ok(ComptimeValue::Bool(!nan && ka < kb)),
                BinaryOp::Le => Ok(ComptimeValue::Bool(!nan && ka <= kb)),
                BinaryOp::Gt => Ok(ComptimeValue::Bool(!nan && kb < ka)),
                BinaryOp::Ge => Ok(ComptimeValue::Bool(!nan && kb <= ka)),
                _ => Err(()),
            }
        },
        (ComptimeValue::Bool(a), ComptimeValue::Bool(b)) => match op {
            BinaryOp::Eq => Ok(ComptimeValue::Bool(a == b)),
            BinaryOp::Ne => Ok(ComptimeValue::Bool(a != b)),
            BinaryOp::And => Ok(ComptimeValue::Bool(a && b)),
            BinaryOp::Or => Ok(ComptimeValue::Bool(a || b)),
            _ => Err(()),
        },
        _ => Err(()),
    }
}

fn eval_unary(op: UnaryOp, v: ComptimeValue) -> (r: Result<ComptimeValue, ()>)
    ensures
        r == unary_result(op, v),
{
    match (op, v) {
        (UnaryOp::Neg, ComptimeValue::Int(n)) => if n == i64::MIN {
            Err(())
        } else {
            Ok(ComptimeValue::Int(-n))
        },
        (UnaryOp::Neg, ComptimeValue::Float(b)) => Ok(
            ComptimeValue::Float(b ^ 0x8000_0000_0000_0000u64),
        ),
        (UnaryOp::Not, ComptimeValue::Bool(b)) => Ok(ComptimeValue::Bool(!b)),
        _ => Err(()),
    }
}

fn literal_value_exec(l: &Literal) -> (r: Option<ComptimeValue>)
    ensures
        r == literal_value(*l),
{
    match l {
        Literal::Int(n) => Some(ComptimeValue::Int(*n)),
        Literal::Float(b) => Some(ComptimeValue::Float(*b)),
        Literal::Bool(b) => Some(ComptimeValue::Bool(*b)),
        Literal::Char(c) => Some(ComptimeValue::Char(*c)),
        _ => None,
    }
}

/// Try to convert an AST expression to a comptime value (for constant
/// arguments).
fn expr_to_comptime_value(expr: &Expr) -> (r: Option<ComptimeValue>)
    ensures
        r == const_value(expr@),
    decreases expr,
{
    match expr {
        Expr::Literal(lit) => literal_value_exec(lit),
        Expr::SomeOf(inner) => match expr_to_comptime_value(inner) {
            Some(v) => Some(ComptimeValue::SomeOf(Box::new(v))),
            None => None,
        },
        Expr::NoneValue => Some(ComptimeValue::NoneValue),
        Expr::Unary { op: UnaryOp::Neg, expr: inner } => match expr_to_comptime_value(inner) {
            Some(ComptimeValue::Int(n)) => if n == i64::MIN {
                None
            } else {
                Some(ComptimeValue::Int(-n))
            },
            Some(ComptimeValue::Float(b)) => Some(
                ComptimeValue::Float(b ^ 0x8000_0000_0000_0000u64),
            ),
            _ => None,
        },
        _ => None,
    }
}

fn match_pattern(p: &Pattern, v: &ComptimeValue) -> (r: Option<Option<(String, ComptimeValue)>>)
    ensures
        match r {
            None => pattern_match(*p, *v) is None,
            Some(None) => pattern_match(*p, *v) == Some(None::<(Seq<char>, ComptimeValue)>),
            Some(Some((k, x))) => pattern_match(*p, *v) == Some(Some((k@, x))),
        },
{
    match p {
        Pattern::Literal(lit) => match literal_value_exec(lit) {
            Some(pv) => if value_eq_exec(&pv, v) {
                Some(None)
            } else {
                None
            },
            None => None,
        },
        Pattern::Bool(b) => match v {
            ComptimeValue::Bool(x) => if *x == *b {
                Some(None)
            } else {
                None
            },
            _ => None,
        },
        Pattern::Ident(name) => if str_eq(name.as_str(), "_") {
            Some(None)
        } else {
            Some(Some((name.clone(), copy_value(v))))
        },
        Pattern::SomeOf(name) => match v {
            ComptimeValue::SomeOf(inner) => if str_eq(name.as_str(), "_") {
                Some(None)
            } else {
                Some(Some((name.clone(), copy_value(inner))))
            },
            _ => None,
        },
        Pattern::NoneValue => match v {
            ComptimeValue::NoneValue => Some(None),
            _ => None,
        },
        _ => None,
    }
}

// ---------------------------------------------------------------------------
// The evaluator
// ---------------------------------------------------------------------------
pub open spec fn fn_def(f: Function) -> FnDef {
    FnDef { params: f.params@, body: f.body@ }
}

/// The table after registering the comptime functions among `items`, in
/// order (a later function of the same name replaces an earlier one).
pub open spec fn register_items(t: FnTable, items: Seq<KernelItem>) -> FnTable
    decreases items.len(),
{
    if items.len() == 0 {
        t
    } else {
        let t1 = register_items(t, items.drop_last());
        match items.last() {
            KernelItem::ComptimeFn(f) => t1.insert(f.name@, fn_def(f)),
            _ => t1,
        }
    }
}

/// A copy of a function that the evaluator can keep.
fn copy_function(f: &Function) -> (r: Function)
    ensures
        r.name == f.name,
        fn_def(r) == fn_def(*f),
{
    Function {
        name: f.name.clone(),
        attributes: f.attributes.clone(),
        params: copy_params(&f.params),
        return_type: copy_opt_type(&f.return_type),
        body: copy_block(&f.body),
    }
}

/// Compile-time function evaluator.
pub struct ComptimeEvaluator {
    /// All comptime functions with their names; the last one of a name counts.
    functions: Vec<(String, Function)>,
    /// Maximum recursion depth to prevent infinite loops.
    max_depth: usize,
}

impl ComptimeEvaluator {
    #[verifier::type_invariant]
    spec fn depth_is_fixed(&self) -> bool {
        self.max_depth == 100
    }

    /// The registered comptime functions by name.
    pub closed spec fn table(&self) -> FnTable {
        assoc_map(self.functions@, |f: Function| fn_def(f))
    }

    /// The deepest nesting of blocks that evaluation enters.
    pub closed spec fn depth_limit(&self) -> int {
        self.max_depth as int
    }

    pub fn new() -> (e: Self)
        ensures
            e.table() == Map::<Seq<char>, FnDef>::empty(),
            e.depth_limit() == 100,
    {
        ComptimeEvaluator { functions: Vec::new(), max_depth: 100 }
    }

    /// Register comptime functions from a kernel.
    pub fn register_kernel(&mut self, kernel: &Kernel)
        ensures
            final(self).table() == register_items(old(self).table(), kernel.items@),
            final(self).depth_limit() == old(self).depth_limit(),
    {
        proof {
            use_type_invariant(&*self);
        }
        let n = kernel.items.len();
        for i in 0..n
            invariant
                n == kernel.items@.len(),
                self.table() == register_items(old(self).table(), kernel.items@.take(i as int)),
                self.depth_limit() == old(self).depth_limit(),
        {
            assert(kernel.items@.take(i + 1).drop_last() =~= kernel.items@.take(i as int));
            match &kernel.items[i] {
                KernelItem::ComptimeFn(func) => {
                    let entry = (func.name.clone(), copy_function(func));
                    let ghost before = self.functions@;
                    let mut taken = ComptimeEvaluator::new();
                    std::mem::swap(self, &mut taken);
                    proof {
                        use_type_invariant(&taken);
                    }
                    let ComptimeEvaluator { mut functions, max_depth } = taken;
                    functions.push(entry);
                    *self = ComptimeEvaluator { functions, max_depth };
                    assert(self.functions@.drop_last() =~= before);
                },
                _ => {},
            }
        }
        assert(kernel.items@.take(n as int) =~= kernel.items@);
    }

    /// Whether any comptime function is registered.
    pub fn has_functions(&self) -> (r: bool)
        ensures
            r == (self.table() != Map::<Seq<char>, FnDef>::empty()),
    {
        if self.functions.len() == 0 {
            assert(self.table() =~= Map::<Seq<char>, FnDef>::empty());
            false
        } else {
            assert(self.table().contains_key(self.functions@.last().0@));
            true
        }
    }

    /// Check if a function name is a registered comptime function.
    pub fn is_comptime_fn(&self, name: &str) -> (r: bool)
        ensures
            r == self.table().contains_key(name@),
    {
        match find_last(&self.functions, name) {
            Some(i) => {
                proof {
                    lemma_assoc_last(self.functions@, |f: Function| fn_def(f), name@, i as int);
                }
                true
            },
            None => {
                proof {
                    lemma_assoc_absent(self.functions@, |f: Function| fn_def(f), name@);
                }
                false
            },
        }
    }

    fn function(&self, name: &str) -> (r: Option<&Function>)
        ensures
            match r {
                Some(f) => self.table().contains_key(name@) && self.table()[name@] == fn_def(
                    *f,
                ),
                None => !self.table().contains_key(name@),
            },
    {
        match find_last(&self.functions, name) {
            Some(i) => {
                proof {
                    lemma_assoc_last(self.functions@, |f: Function| fn_def(f), name@, i as int);
                }
                Some(&self.functions[i].1)
            },
            None => {
                proof {
                    lemma_assoc_absent(self.functions@, |f: Function| fn_def(f), name@);
                }
                None
            },
        }
    }

    /// Binds parameters to values in order.
    fn bind_params_exec(params: &Vec<Param>, vals: &Vec<ComptimeValue>) -> (env: ValueEnv)
        requires
            params@.len() == vals@.len(),
        ensures
            env.view() == bind_params(params@, vals@),
    {
        let mut env = ValueEnv::new();
        let n = params.len();
        for i in 0..n
            invariant
                n == params@.len(),
                n == vals@.len(),
                env.view() == bind_params(params@.take(i as int), vals@.take(i as int)),
        {
            assert(params@.take(i + 1).drop_last() =~= params@.take(i as int));
            assert(vals@.take(i + 1).drop_last() =~= vals@.take(i as int));
            env.insert(params[i].name.clone(), copy_value(&vals[i]));
        }
        assert(params@.take(n as int) =~= params@);
        assert(vals@.take(n as int) =~= vals@);
        env
    }

    fn eval_expr(&self, expr: &Expr, env: &ValueEnv, depth: usize) -> (r: Result<
        ComptimeValue,
        (),
    >)
        requires
            depth <= self.depth_limit(),
        ensures
            r == eval_expr(self.table(), expr@, env.view(), depth as int, self.depth_limit()),
        decreases self.depth_limit() + 1 - depth, expr, 0int,
    {
        proof {
            use_type_invariant(self);
            reveal(eval_block_value);
        }
        match expr {
            Expr::Literal(lit) => match literal_value_exec(lit) {
                Some(v) => Ok(v),
                None => Err(()),
            },
            Expr::Ident(name) => match env.get(name.as_str()) {
                Some(v) => Ok(v),
                None => Err(()),
            },
            Expr::Binary { op, left, right } => {
                let l = match self.eval_expr(left, env, depth) {
                    Ok(v) => v,
                    Err(_) => return Err(()),
                };
                let r = match self.eval_expr(right, env, depth) {
                    Ok(v) => v,
                    Err(_) => return Err(()),
                };
                eval_binary(*op, l, r)
            },
            Expr::Unary { op, expr: inner } => {
                let v = match self.eval_expr(inner, env, depth) {
                    Ok(v) => v,
                    Err(_) => return Err(()),
                };
                eval_unary(*op, v)
            },
            Expr::If { condition, then_expr, else_expr } => {
                let c = match self.eval_expr(condition, env, depth) {
                    Ok(v) => v,
                    Err(_) => return Err(()),
                };
                match c {
                    ComptimeValue::Bool(b) => if b {
                        self.eval_expr(then_expr, env, depth)
                    } else {
                        self.eval_expr(else_expr, env, depth)
                    },
                    _ => Err(()),
                }
            },
            Expr::Block(block) => {
                let mut local = env.copy();
                self.eval_block(block, &mut local, depth + 1)
            },
            Expr::Call { func, args } => {
                match &**func {
                    Expr::Ident(name) => {
                        assert((**func)@ == SpecExpr::Ident(*name));
                        if !self.is_comptime_fn(name.as_str()) {
                            return Err(());
                        }
                        let vals = match self.eval_args(args, env, depth) {
                            Ok(vals) => vals,
                            Err(_) => return Err(()),
                        };
                        let f = self.function(name.as_str()).unwrap();
                        if vals.len() != f.params.len() {
                            return Err(());
                        }
                        let mut call_env = Self::bind_params_exec(&f.params, &vals);
                        self.eval_block(&f.body, &mut call_env, depth + 1)
                    },
                    _ => {
                        assert(!((**func)@ is Ident));
                        Err(())
                    },
                }
            },
            Expr::SomeOf(inner) => match self.eval_expr(inner, env, depth) {
                Ok(v) => Ok(ComptimeValue::SomeOf(Box::new(v))),
                Err(_) => Err(()),
            },
            Expr::NoneValue => Ok(ComptimeValue::NoneValue),
            Expr::Match { expr: scrutinee, arms } => {
                let v = match self.eval_expr(scrutinee, env, depth) {
                    Ok(v) => v,
                    Err(_) => return Err(()),
                };
                self.eval_match_expr(arms, v, env, depth)
            },
            _ => Err(()),
        }
    }

    /// The values of the arguments, in order.
    fn eval_args(&self, args: &Vec<Expr>, env: &ValueEnv, depth: usize) -> (r: Result<
        Vec<ComptimeValue>,
        (),
    >)
        requires
            depth <= self.depth_limit(),
        ensures
            match eval_args(
                self.table(),
                exprs_view(args@),
                0,
                env.view(),
                depth as int,
                self.depth_limit(),
            ) {
                Ok(vals) => r matches Ok(v) && v@ == vals,
                Err(_) => r is Err,
            },
        decreases self.depth_limit() + 1 - depth, args, 0int,
    {
        let ghost t = self.table();
        let ghost mx = self.depth_limit();
        let ghost sargs = exprs_view(args@);
        let mut vals: Vec<ComptimeValue> = Vec::new();
        let n = args.len();
        for i in 0..n
            invariant
                n == args@.len(),
                sargs == exprs_view(args@),
                depth <= self.depth_limit(),
                t == self.table(),
                mx == self.depth_limit(),
                eval_args(t, sargs, 0, env.view(), depth as int, mx) == match eval_args(
                    t,
                    sargs,
                    i as int,
                    env.view(),
                    depth as int,
                    mx,
                ) {
                    Ok(rest) => Ok(vals@ + rest),
                    Err(_) => Err(()),
                },
        {
            assert(decreases_to!(args => args@[i as int]));
            let v = match self.eval_expr(&args[i], env, depth) {
                Ok(v) => v,
                Err(_) => return Err(()),
            };
            proof {
                let x = eval_args(t, sargs, i + 1, env.view(), depth as int, mx);
                if let Ok(rest) = x {
                    assert(vals@ + (seq![v] + rest) =~= vals@.push(v) + rest);
                }
            }
            vals.push(v);
        }
        assert(vals@ + Seq::<ComptimeValue>::empty() =~= vals@);
        Ok(vals)
    }

    /// A `match` expression over the value `v`.
    fn eval_match_expr(
        &self,
        arms: &Vec<MatchArm>,
        v: ComptimeValue,
        env: &ValueEnv,
        depth: usize,
    ) -> (r: Result<ComptimeValue, ()>)
        requires
            depth <= self.depth_limit(),
        ensures
            r == eval_match_expr(
                self.table(),
                arms_view(arms@),
                0,
                v,
                env.view(),
                depth as int,
                self.depth_limit(),
            ),
        decreases self.depth_limit() + 1 - depth, arms, 0int,
    {
        let ghost t = self.table();
        let ghost mx = self.depth_limit();
        let ghost sarms = arms_view(arms@);
        let n = arms.len();
        for i in 0..n
            invariant
                n == arms@.len(),
                sarms == arms_view(arms@),
                depth <= self.depth_limit(),
                t == self.table(),
                mx == self.depth_limit(),
                eval_match_expr(t, sarms, 0, v, env.view(), depth as int, mx) == eval_match_expr(
                    t,
                    sarms,
                    i as int,
                    v,
                    env.view(),
                    depth as int,
                    mx,
                ),
        {
            assert(decreases_to!(arms => arms@[i as int]));
            proof {
                lemma_match_expr_step(t, sarms, i as int, v, env.view(), depth as int, mx);
            }
            if let Some(r) = self.eval_arm_expr(&arms[i], &v, env, depth) {
                return r;
            }
        }
        Ok(ComptimeValue::Int(0))
    }

    /// One arm of a `match` expression: `None` when its pattern does not
    /// match.
    fn eval_arm_expr(&self, arm: &MatchArm, v: &ComptimeValue, env: &ValueEnv, depth: usize) -> (r:
        Option<Result<ComptimeValue, ()>>)
        requires
            depth <= self.depth_limit(),
        ensures
            match pattern_match(arm@.pattern, *v) {
                None => r is None,
                Some(b) => r == Some(
                    match arm@.body {
                        SpecBody::Expr(e) => eval_expr(
                            self.table(),
                            e,
                            bind(env.view(), b),
                            depth as int,
                            self.depth_limit(),
                        ),
                        SpecBody::Block(blk) => if depth + 1 > self.depth_limit() {
                            Err(())
                        } else {
                            eval_block_value(
                                self.table(),
                                blk,
                                bind(env.view(), b),
                                depth + 1,
                                self.depth_limit(),
                            )
                        },
                    },
                ),
            },
        decreases self.depth_limit() + 1 - depth, arm, 0int,
    {
        proof {
            use_type_invariant(self);
        }
        match match_pattern(&arm.pattern, v) {
            Some(b) => {
                let mut arm_env = env.copy();
                arm_env.bind(b);
                match &arm.body {
                    MatchBody::Expr(e) => Some(self.eval_expr(e, &arm_env, depth)),
                    MatchBody::Block(blk) => Some(self.eval_block(blk, &mut arm_env, depth + 1)),
                }
            },
            None => None,
        }
    }

    fn eval_block(&self, block: &Block, env: &mut ValueEnv, depth: usize) -> (r: Result<
        ComptimeValue,
        (),
    >)
        requires
            depth <= self.depth_limit() + 1,
        ensures
            r == eval_block_value(
                self.table(),
                block@,
                old(env).view(),
                depth as int,
                self.depth_limit(),
            ),
            depth > self.depth_limit() ==> r == Err::<ComptimeValue, ()>(()),
        decreases self.depth_limit() + 1 - depth, block, 1int,
    {
        proof {
            lemma_block_value(self.table(), block@, env.view(), depth as int, self.depth_limit());
            if depth > self.depth_limit() {
                lemma_block_too_deep(
                    self.table(),
                    block@,
                    env.view(),
                    depth as int,
                    self.depth_limit(),
                );
            }
        }
        match self.eval_block_cf(block, env, depth) {
            Ok(Flow::Continue(v)) => Ok(v),
            Ok(Flow::Return(v)) => Ok(v),
            _ => Err(()),
        }
    }

    #[verifier::rlimit(60)]
    #[verifier::spinoff_prover]
    fn eval_block_cf(&self, block: &Block, env: &mut ValueEnv, depth: usize) -> (r: Result<
        Flow,
        (),
    >)
        requires
            depth <= self.depth_limit() + 1,
        ensures
            match eval_block_cf(
                self.table(),
                block@,
                old(env).view(),
                depth as int,
                self.depth_limit(),
            ) {
                Ok((f, e)) => r == Ok::<Flow, ()>(f) && final(env).view() == e,
                Err(_) => r is Err,
            },
        decreases self.depth_limit() + 1 - depth, block, 0int,
    {
        proof {
            use_type_invariant(self);
        }
        let ghost t = self.table();
        let ghost mx = self.depth_limit();
        let ghost ss = block@.statements;
        let ghost env0 = env.view();
        proof {
            lemma_block_cf(t, block@, env0, depth as int, mx);
        }
        if depth > self.max_depth {
            return Err(());
        }
        let mut result = ComptimeValue::Int(0);
        let n = block.statements.len();
        for i in 0..n
            invariant
                n == block.statements@.len(),
                ss == block@.statements,
                ss == stmts_view(block.statements@),
                depth <= self.depth_limit(),
                t == self.table(),
                mx == self.depth_limit(),
                eval_block_cf(t, block@, old(env).view(), depth as int, mx) == eval_stmts(
                    t,
                    ss,
                    i as int,
                    env.view(),
                    depth as int,
                    mx,
                    result,
                ),
        {
            assert(decreases_to!(block => block.statements@[i as int]));
            proof {
                lemma_stmts_view(block.statements@);
                lemma_stmts_step(t, ss, i as int, env.view(), depth as int, mx, result);
            }
            let r = self.eval_stmt(&block.statements[i], env, depth, copy_value(&result));
            match r {
                Ok(Flow::Continue(v)) => {
                    result = v;
                },
                Ok(f) => {
                    return Ok(f);
                },
                Err(_) => {
                    return Err(());
                },
            }
        }
        proof {
            lemma_stmts_end(t, ss, n as int, env.view(), depth as int, mx, result);
        }
        Ok(Flow::Continue(result))
    }

    fn eval_stmt(&self, stmt: &Stmt, env: &mut ValueEnv, depth: usize, result: ComptimeValue) -> (r:
        Result<Flow, ()>)
        requires
            depth <= self.depth_limit(),
        ensures
            flow_agrees(
                r,
                eval_stmt(self.table(), stmt@, old(env).view(), depth as int, self.depth_limit(), result),
                final(env).view(),
            ),
        decreases self.depth_limit() + 1 - depth, stmt, stmt_rank(),
    {
        match stmt {
            Stmt::If { .. } => self.eval_if_stmt(stmt, env, depth, result),
            Stmt::For { .. } => self.eval_for_stmt(stmt, env, depth, result),
            Stmt::Loop(body) => {
                proof {
                    lemma_stmt_loop(
                        self.table(),
                        stmt@,
                        env.view(),
                        depth as int,
                        self.depth_limit(),
                        result,
                    );
                }
                self.eval_loop_stmt(stmt, body, env, depth, result)
            },
            Stmt::While { condition, body } => {
                proof {
                    lemma_stmt_loop(
                        self.table(),
                        stmt@,
                        env.view(),
                        depth as int,
                        self.depth_limit(),
                        result,
                    );
                }
                self.eval_while_stmt(stmt, condition, body, env, depth, result)
            },
            _ => self.eval_simple_stmt(stmt, env, depth, result),
        }
    }

    /// The statements that contain no block of their own to run.
    #[verifier::spinoff_prover]
    fn eval_simple_stmt(
        &self,
        stmt: &Stmt,
        env: &mut ValueEnv,
        depth: usize,
        result: ComptimeValue,
    ) -> (r: Result<Flow, ()>)
        requires
            depth <= self.depth_limit(),
            !(stmt is If || stmt is For || stmt is Loop || stmt is While),
        ensures
            flow_agrees(
                r,
                eval_stmt(self.table(), stmt@, old(env).view(), depth as int, self.depth_limit(), result),
                final(env).view(),
            ),
        decreases self.depth_limit() + 1 - depth, stmt, stmt_rank() - 1,
    {
        proof {
            reveal(eval_stmt);
        }
        match stmt {
            Stmt::Let { name, value, .. } => {
                let v = match self.eval_expr(value, env, depth) {
                    Ok(v) => v,
                    Err(_) => return Err(()),
                };
                env.insert(name.clone(), v);
                Ok(Flow::Continue(result))
            },
            Stmt::Assign { target, value } => {
                match target {
                    Expr::Ident(name) => {
                        let v = match self.eval_expr(value, env, depth) {
                            Ok(v) => v,
                            Err(_) => return Err(()),
                        };
                        env.insert(name.clone(), v);
                        Ok(Flow::Continue(result))
                    },
                    _ => Err(()),
                }
            },
            Stmt::Return(Some(e)) => match self.eval_expr(e, env, depth) {
                Ok(v) => Ok(Flow::Return(v)),
                Err(_) => Err(()),
            },
            Stmt::Return(None) => Ok(Flow::Return(ComptimeValue::Int(0))),
            Stmt::Match { expr, arms } => {
                let v = match self.eval_expr(expr, env, depth) {
                    Ok(v) => v,
                    Err(_) => return Err(()),
                };
                self.eval_match_stmt(arms, v, env, depth, result)
            },
            Stmt::Expr(e) => match self.eval_expr(e, env, depth) {
                Ok(v) => Ok(Flow::Continue(v)),
                Err(_) => Err(()),
            },
            Stmt::Break => Ok(Flow::Break),
            Stmt::Continue => Ok(Flow::LoopContinue),
            _ => Err(()),
        }
    }

    /// An `if` statement: the chosen branch runs one level deeper.
    #[verifier::spinoff_prover]
    fn eval_if_stmt(&self, stmt: &Stmt, env: &mut ValueEnv, depth: usize, result: ComptimeValue) -> (r:
        Result<Flow, ()>)
        requires
            depth <= self.depth_limit(),
            stmt is If,
        ensures
            flow_agrees(
                r,
                eval_stmt(self.table(), stmt@, old(env).view(), depth as int, self.depth_limit(), result),
                final(env).view(),
            ),
        decreases self.depth_limit() + 1 - depth, stmt, stmt_rank() - 1,
    {
        let ghost t = self.table();
        let ghost mx = self.depth_limit();
        proof {
            use_type_invariant(self);
            lemma_stmt_if(t, stmt@, env.view(), depth as int, mx, result);
        }
        match stmt {
            Stmt::If { condition, then_block, else_block } => {
                let c = match self.eval_expr(condition, env, depth) {
                    Ok(v) => v,
                    Err(_) => return Err(()),
                };
                match c {
                    ComptimeValue::Bool(b) => {
                        if b {
                            self.eval_block_cf(then_block, env, depth + 1)
                        } else {
                            match else_block {
                                Some(eb) => self.eval_block_cf(eb, env, depth + 1),
                                None => Ok(Flow::Continue(result)),
                            }
                        }
                    },
                    _ => Err(()),
                }
            },
            _ => Err(()),
        }
    }

    /// A `for` statement over an integer range.
    #[verifier::spinoff_prover]
    fn eval_for_stmt(&self, stmt: &Stmt, env: &mut ValueEnv, depth: usize, result: ComptimeValue) -> (r:
        Result<Flow, ()>)
        requires
            depth <= self.depth_limit(),
            stmt is For,
        ensures
            flow_agrees(
                r,
                eval_stmt(self.table(), stmt@, old(env).view(), depth as int, self.depth_limit(), result),
                final(env).view(),
            ),
        decreases self.depth_limit() + 1 - depth, stmt, stmt_rank() - 1,
    {
        proof {
            lemma_stmt_for(
                self.table(),
                stmt@,
                env.view(),
                depth as int,
                self.depth_limit(),
                result,
            );
        }
        match stmt {
            Stmt::For { var, iter, body } => {
                match iter {
                    Expr::Range { start, end, inclusive } => {
                        let sv = match self.eval_expr(start, env, depth) {
                            Ok(v) => v,
                            Err(_) => return Err(()),
                        };
                        let ev = match self.eval_expr(end, env, depth) {
                            Ok(v) => v,
                            Err(_) => return Err(()),
                        };
                        match (sv, ev) {
                            (ComptimeValue::Int(a), ComptimeValue::Int(b)) => {
                                let hi: i128 = if *inclusive {
                                    b as i128 + 1
                                } else {
                                    b as i128
                                };
                                self.eval_for_loop(stmt, var, body, a, hi, env, depth, result)
                            },
                            _ => Err(()),
                        }
                    },
                    _ => Err(()),
                }
            },
            _ => Err(()),
        }
    }

    /// A `match` statement over the value `v`; the environment is left as
    /// it was.
    fn eval_match_stmt(
        &self,
        arms: &Vec<MatchArm>,
        v: ComptimeValue,
        env: &ValueEnv,
        depth: usize,
        result: ComptimeValue,
    ) -> (r: Result<Flow, ()>)
        requires
            depth <= self.depth_limit(),
        ensures
            match eval_match_stmt(
                self.table(),
                arms_view(arms@),
                0,
                v,
                env.view(),
                depth as int,
                self.depth_limit(),
                result,
            ) {
                Ok((f, e)) => r == Ok::<Flow, ()>(f) && e == env.view(),
                Err(_) => r is Err,
            },
        decreases self.depth_limit() + 1 - depth, arms, 0int,
    {
        let ghost t = self.table();
        let ghost mx = self.depth_limit();
        let ghost sarms = arms_view(arms@);
        let n = arms.len();
        for i in 0..n
            invariant
                n == arms@.len(),
                sarms == arms_view(arms@),
                depth <= self.depth_limit(),
                t == self.table(),
                mx == self.depth_limit(),
                eval_match_stmt(t, sarms, 0, v, env.view(), depth as int, mx, result)
                    == eval_match_stmt(t, sarms, i as int, v, env.view(), depth as int, mx, result),
        {
            assert(decreases_to!(arms => arms@[i as int]));
            proof {
                lemma_match_stmt_step(t, sarms, i as int, v, env.view(), depth as int, mx, result);
            }
            if let Some(r) = self.eval_arm_stmt(&arms[i], &v, env, depth) {
                return r;
            }
        }
        Ok(Flow::Continue(result))
    }

    /// One arm of a `match` statement: `None` when its pattern does not
    /// match.
    fn eval_arm_stmt(&self, arm: &MatchArm, v: &ComptimeValue, env: &ValueEnv, depth: usize) -> (r:
        Option<Result<Flow, ()>>)
        requires
            depth <= self.depth_limit(),
        ensures
            match pattern_match(arm@.pattern, *v) {
                None => r is None,
                Some(b) => match arm@.body {
                    SpecBody::Expr(e) => match eval_expr(
                        self.table(),
                        e,
                        bind(env.view(), b),
                        depth as int,
                        self.depth_limit(),
                    ) {
                        Ok(x) => r == Some(Ok::<Flow, ()>(Flow::Continue(x))),
                        Err(_) => r == Some(Err::<Flow, ()>(())),
                    },
                    SpecBody::Block(blk) => match eval_block_cf(
                        self.table(),
                        blk,
                        bind(env.view(), b),
                        depth + 1,
                        self.depth_limit(),
                    ) {
                        Ok((f, _)) => r == Some(Ok::<Flow, ()>(f)),
                        Err(_) => r == Some(Err::<Flow, ()>(())),
                    },
                },
            },
        decreases self.depth_limit() + 1 - depth, arm, 0int,
    {
        proof {
            use_type_invariant(self);
        }
        match match_pattern(&arm.pattern, v) {
            Some(b) => {
                let mut arm_env = env.copy();
                arm_env.bind(b);
                match &arm.body {
                    MatchBody::Expr(e) => match self.eval_expr(e, &arm_env, depth) {
                        Ok(x) => Some(Ok(Flow::Continue(x))),
                        Err(_) => Some(Err(())),
                    },
                    MatchBody::Block(blk) => {
                        match self.eval_block_cf(blk, &mut arm_env, depth + 1) {
                            Ok(f) => Some(Ok(f)),
                            Err(_) => Some(Err(())),
                        }
                    },
                }
            },
            None => None,
        }
    }

    #[verifier::rlimit(60)]
    #[verifier::spinoff_prover]
    fn eval_for_loop(
        &self,
        stmt: &Stmt,
        var: &String,
        body: &Block,
        a: i64,
        hi: i128,
        env: &mut ValueEnv,
        depth: usize,
        result: ComptimeValue,
    ) -> (r: Result<Flow, ()>)
        requires
            depth <= self.depth_limit(),
            stmt matches Stmt::For { var: v, body: b, .. } && v == *var && b == *body,
            hi <= i64::MAX + 1,
        ensures
            match eval_for(
                self.table(),
                stmt@,
                a as int,
                hi as int,
                old(env).view(),
                depth as int,
                self.depth_limit(),
                result,
            ) {
                Ok((f, e)) => r == Ok::<Flow, ()>(f) && final(env).view() == e,
                Err(_) => r is Err,
            },
        decreases self.depth_limit() + 1 - depth, stmt, stmt_rank() - 2,
    {
        let ghost t = self.table();
        let ghost mx = self.depth_limit();
        let ghost target = eval_for(
            t,
            stmt@,
            a as int,
            hi as int,
            old(env).view(),
            depth as int,
            mx,
            result,
        );
        let mut i: i128 = a as i128;
        let mut res = result;
        proof {
            use_type_invariant(self);
        }
        loop
            invariant
                depth <= self.depth_limit(),
                self.depth_limit() == 100,
                t == self.table(),
                mx == self.depth_limit(),
                stmt matches Stmt::For { var: v, body: b, .. } && v == *var && b == *body,
                hi <= i64::MAX + 1,
                a <= i,
                target == eval_for(
                    self.table(),
                    stmt@,
                    a as int,
                    hi as int,
                    old(env).view(),
                    depth as int,
                    self.depth_limit(),
                    result,
                ),
                target == eval_for(t, stmt@, i as int, hi as int, env.view(), depth as int, mx, res),
            decreases hi - i,
        {
            if i >= hi {
                proof {
                    lemma_for_end(t, stmt@, i as int, hi as int, env.view(), depth as int, mx, res);
                }
                return Ok(Flow::Continue(res));
            }
            proof {
                lemma_for_step(
                    t,
                    stmt@,
                    *var,
                    body@,
                    i as int,
                    hi as int,
                    env.view(),
                    depth as int,
                    mx,
                    res,
                );
            }
            env.insert(var.clone(), ComptimeValue::Int(i as i64));
            match self.eval_block_cf(body, env, depth + 1) {
                Ok(Flow::Return(v)) => {
                    return Ok(Flow::Return(v));
                },
                Ok(Flow::Break) => {
                    return Ok(Flow::Continue(res));
                },
                Ok(Flow::LoopContinue) => {},
                Ok(Flow::Continue(v)) => {
                    res = v;
                },
                Err(_) => {
                    return Err(());
                },
            }
            i = i + 1;
        }
    }

    #[verifier::rlimit(60)]
    #[verifier::spinoff_prover]
    fn eval_loop_stmt(
        &self,
        stmt: &Stmt,
        body: &Block,
        env: &mut ValueEnv,
        depth: usize,
        result: ComptimeValue,
    ) -> (r: Result<Flow, ()>)
        requires
            depth <= self.depth_limit(),
            stmt matches Stmt::Loop(b) && b == *body,
        ensures
            match eval_loop(
                self.table(),
                stmt@,
                0,
                old(env).view(),
                depth as int,
                self.depth_limit(),
                result,
            ) {
                Ok((f, e)) => r == Ok::<Flow, ()>(f) && final(env).view() == e,
                Err(_) => r is Err,
            },
        decreases self.depth_limit() + 1 - depth, stmt, stmt_rank() - 1,
    {
        let ghost t = self.table();
        let ghost mx = self.depth_limit();
        let ghost target = eval_loop(t, stmt@, 0, old(env).view(), depth as int, mx, result);
        let mut n: usize = 0;
        let mut res = result;
        proof {
            use_type_invariant(self);
        }
        loop
            invariant
                depth <= self.depth_limit(),
                self.depth_limit() == 100,
                t == self.table(),
                mx == self.depth_limit(),
                stmt matches Stmt::Loop(b) && b == *body,
                n <= 100000,
                target == eval_loop(
                    self.table(),
                    stmt@,
                    0,
                    old(env).view(),
                    depth as int,
                    self.depth_limit(),
                    result,
                ),
                target == eval_loop(t, stmt@, n as int, env.view(), depth as int, mx, res),
            decreases 100000 - n,
        {
            if n + 1 > 100000 {
                proof {
                    lemma_loop_limit(t, stmt@, n as int, env.view(), depth as int, mx, res);
                }
                return Err(());
            }
            proof {
                lemma_loop_step(t, stmt@, body@, n as int, env.view(), depth as int, mx, res);
            }
            match self.eval_block_cf(body, env, depth + 1) {
                Ok(Flow::Return(v)) => {
                    return Ok(Flow::Return(v));
                },
                Ok(Flow::Break) => {
                    return Ok(Flow::Continue(res));
                },
                Ok(Flow::LoopContinue) => {},
                Ok(Flow::Continue(v)) => {
                    res = v;
                },
                Err(_) => {
                    return Err(());
                },
            }
            n = n + 1;
        }
    }

    #[verifier::rlimit(60)]
    #[verifier::spinoff_prover]
    fn eval_while_stmt(
        &self,
        stmt: &Stmt,
        condition: &Expr,
        body: &Block,
        env: &mut ValueEnv,
        depth: usize,
        result: ComptimeValue,
    ) -> (r: Result<Flow, ()>)
        requires
            depth <= self.depth_limit(),
            stmt matches Stmt::While { condition: c, body: b } && c == *condition && b == *body,
        ensures
            match eval_while(
                self.table(),
                stmt@,
                0,
                old(env).view(),
                depth as int,
                self.depth_limit(),
                result,
            ) {
                Ok((f, e)) => r == Ok::<Flow, ()>(f) && final(env).view() == e,
                Err(_) => r is Err,
            },
        decreases self.depth_limit() + 1 - depth, stmt, stmt_rank() - 1,
    {
        let ghost t = self.table();
        let ghost mx = self.depth_limit();
        let ghost target = eval_while(t, stmt@, 0, old(env).view(), depth as int, mx, result);
        let mut n: usize = 0;
        let mut res = result;
        proof {
            use_type_invariant(self);
        }
        loop
            invariant
                depth <= self.depth_limit(),
                self.depth_limit() == 100,
                t == self.table(),
                mx == self.depth_limit(),
                stmt matches Stmt::While { condition: c, body: b } && c == *condition && b
                    == *body,
                n <= 100000,
                target == eval_while(
                    self.table(),
                    stmt@,
                    0,
                    old(env).view(),
                    depth as int,
                    self.depth_limit(),
                    result,
                ),
                target == eval_while(t, stmt@, n as int, env.view(), depth as int, mx, res),
            decreases 100000 - n,
        {
            if n + 1 > 100000 {
                proof {
                    lemma_loop_limit(t, stmt@, n as int, env.view(), depth as int, mx, res);
                }
                return Err(());
            }
            proof {
                lemma_while_step(
                    t,
                    stmt@,
                    condition@,
                    body@,
                    n as int,
                    env.view(),
                    depth as int,
                    mx,
                    res,
                );
            }
            let cv = match self.eval_expr(condition, env, depth) {
                Ok(v) => v,
                Err(_) => return Err(()),
            };
            let go = match cv {
                ComptimeValue::Bool(b) => b,
                ComptimeValue::Int(k) => k != 0,
                _ => {
                    return Err(());
                },
            };
            if !go {
                return Ok(Flow::Continue(res));
            }
            match self.eval_block_cf(body, env, depth + 1) {
                Ok(Flow::Return(v)) => {
                    return Ok(Flow::Return(v));
                },
                Ok(Flow::Break) => {
                    return Ok(Flow::Continue(res));
                },
                Ok(Flow::LoopContinue) => {},
                Ok(Flow::Continue(v)) => {
                    res = v;
                },
                Err(_) => {
                    return Err(());
                },
            }
            n = n + 1;
        }
    }

    /// Try to evaluate a comptime function call with the given arguments.
    /// Returns None if arguments aren't all constants or evaluation fails.
    pub fn try_eval(&self, name: &str, args: &[Expr]) -> (r: Option<ComptimeValue>)
        ensures
            r == try_eval_spec(self.table(), name@, exprs_view(args@), self.depth_limit()),
    {
        proof {
            use_type_invariant(self);
        }
        let f = match self.function(name) {
            Some(f) => f,
            None => return None,
        };
        let ghost sargs = exprs_view(args@);
        let mut vals: Vec<ComptimeValue> = Vec::new();
        let n = args.len();
        for i in 0..n
            invariant
                n == args@.len(),
                sargs == exprs_view(args@),
                const_values(sargs.take(i as int)) == Some(vals@),
        {
            assert(sargs.take(i + 1).drop_last() =~= sargs.take(i as int));
            match expr_to_comptime_value(&args[i]) {
                Some(v) => {
                    vals.push(v);
                },
                None => {
                    proof {
                        lemma_const_values_prefix_none(sargs, i + 1);
                    }
                    return None;
                },
            }
        }
        assert(sargs.take(n as int) =~= sargs);
        if vals.len() != f.params.len() {
            return None;
        }
        let mut env = Self::bind_params_exec(&f.params, &vals);
        match self.eval_block(&f.body, &mut env, 0) {
            Ok(v) => Some(v),
            Err(_) => None,
        }
    }
}

/// When a prefix of the arguments is not all constants, neither are all the
/// arguments.
proof fn lemma_const_values_prefix_none(args: Seq<SpecExpr>, k: int)
    requires
        0 <= k <= args.len(),
        const_values(args.take(k)) is None,
    ensures
        const_values(args) is None,
    decreases args.len() - k,
{
    if k < args.len() {
        assert(args.take(k + 1).drop_last() =~= args.take(k));
        lemma_const_values_prefix_none(args, k + 1);
    } else {
        assert(args.take(k) =~= args);
    }
}

} // verus!
