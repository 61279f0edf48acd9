//! The constant-folding pass: every call of a `comptime fn` whose arguments
//! are all constants is replaced, in place, by the literal of the value it
//! computes.
use vstd::prelude::*;
use vstd::pervasive::VecAdditionalExecFns;
use crate::ast::{
    group_ast_views, lemma_stmts_view, Block, ConstDef, Expr, File, Function, Kernel, KernelItem,
    MatchArm, MatchBody, SpecArm, SpecBlock, SpecBody, SpecExpr, SpecStmt, Stmt, Type,
    copy_literal, copy_strings, copy_params, copy_type, copy_opt_type, copy_pattern, exprs_view,
    named_exprs_view, arms_view, stmts_view,
};
use crate::comptime::{ComptimeEvaluator, FnTable, register_items, try_eval_spec, value_to_expr};

verus! {

broadcast use group_ast_views;

// ---------------------------------------------------------------------------
// Counting
// ---------------------------------------------------------------------------
/// Statistics from the comptime folding pass.
pub struct ComptimeFoldStats {
    pub calls_folded: usize,
    pub calls_skipped: usize,
}

/// `a + n`, held at `usize::MAX`.
pub open spec fn sat(a: usize, n: nat) -> usize {
    if a + n > usize::MAX {
        usize::MAX
    } else {
        (a + n) as usize
    }
}

/// The statistics after `f` more folded and `k` more skipped calls.
pub open spec fn stats_after(s: ComptimeFoldStats, f: nat, k: nat) -> ComptimeFoldStats {
    ComptimeFoldStats { calls_folded: sat(s.calls_folded, f), calls_skipped: sat(s.calls_skipped, k) }
}

// ---------------------------------------------------------------------------
// What the pass computes
// ---------------------------------------------------------------------------
/// The result of folding: the new tree, the calls folded, the calls skipped.
pub type Folded<A> = (A, nat, nat);

/// The step at a call node whose children are already folded: a call of a
/// registered comptime function is replaced by the literal of its value, or
/// counted as skipped when it cannot be evaluated.
pub open spec fn fold_call(t: FnTable, mx: int, e: SpecExpr) -> Folded<SpecExpr> {
    match e {
        SpecExpr::Call { func, args } => match *func {
            SpecExpr::Ident(name) => if t.contains_key(name@) {
                match try_eval_spec(t, name@, args, mx) {
                    Some(v) => (value_to_expr(v), 1nat, 0nat),
                    None => (e, 0nat, 1nat),
                }
            } else {
                (e, 0nat, 0nat)
            },
            _ => (e, 0nat, 0nat),
        },
        _ => (e, 0nat, 0nat),
    }
}

pub open spec fn fold_expr_spec(t: FnTable, mx: int, e: SpecExpr) -> Folded<SpecExpr>
    decreases e, 1int,
{
    match e {
        SpecExpr::Binary { op, left, right } => {
            let l = fold_expr_spec(t, mx, *left);
            let r = fold_expr_spec(t, mx, *right);
            (SpecExpr::Binary { op, left: Box::new(l.0), right: Box::new(r.0) }, l.1 + r.1, l.2 + r.2)
        },
        SpecExpr::Unary { op, expr } => {
            let x = fold_expr_spec(t, mx, *expr);
            (SpecExpr::Unary { op, expr: Box::new(x.0) }, x.1, x.2)
        },
        SpecExpr::Call { func, args } => {
            let f = fold_expr_spec(t, mx, *func);
            let a = fold_exprs_spec(t, mx, args, 0);
            let c = fold_call(t, mx, SpecExpr::Call { func: Box::new(f.0), args: a.0 });
            (c.0, f.1 + a.1 + c.1, f.2 + a.2 + c.2)
        },
        SpecExpr::Index { expr, index } => {
            let x = fold_expr_spec(t, mx, *expr);
            let i = fold_expr_spec(t, mx, *index);
            (SpecExpr::Index { expr: Box::new(x.0), index: Box::new(i.0) }, x.1 + i.1, x.2 + i.2)
        },
        SpecExpr::Field { expr, field } => {
            let x = fold_expr_spec(t, mx, *expr);
            (SpecExpr::Field { expr: Box::new(x.0), field }, x.1, x.2)
        },
        SpecExpr::Use { path, args } => {
            let a = fold_named_spec(t, mx, args, 0);
            (SpecExpr::Use { path, args: a.0 }, a.1, a.2)
        },
        SpecExpr::Send { message, target, args } => {
            let m = fold_expr_spec(t, mx, *message);
            let a = fold_named_spec(t, mx, args, 0);
            (SpecExpr::Send { message: Box::new(m.0), target, args: a.0 }, m.1 + a.1, m.2 + a.2)
        },
        SpecExpr::Lambda { params, body } => {
            let b = fold_expr_spec(t, mx, *body);
            (SpecExpr::Lambda { params, body: Box::new(b.0) }, b.1, b.2)
        },
        SpecExpr::If { condition, then_expr, else_expr } => {
            let c = fold_expr_spec(t, mx, *condition);
            let x = fold_expr_spec(t, mx, *then_expr);
            let y = fold_expr_spec(t, mx, *else_expr);
            (
                SpecExpr::If {
                    condition: Box::new(c.0),
                    then_expr: Box::new(x.0),
                    else_expr: Box::new(y.0),
                },
                c.1 + x.1 + y.1,
                c.2 + x.2 + y.2,
            )
        },
        SpecExpr::Match { expr, arms } => {
            let x = fold_expr_spec(t, mx, *expr);
            let a = fold_arms_spec(t, mx, arms, 0);
            (SpecExpr::Match { expr: Box::new(x.0), arms: a.0 }, x.1 + a.1, x.2 + a.2)
        },
        SpecExpr::Block(b) => {
            let x = fold_block_spec(t, mx, b);
            (SpecExpr::Block(x.0), x.1, x.2)
        },
        SpecExpr::SomeOf(inner) => {
            let x = fold_expr_spec(t, mx, *inner);
            (SpecExpr::SomeOf(Box::new(x.0)), x.1, x.2)
        },
        SpecExpr::Array(items) => {
            let a = fold_exprs_spec(t, mx, items, 0);
            (SpecExpr::Array(a.0), a.1, a.2)
        },
        SpecExpr::Struct { name, fields } => {
            let a = fold_named_spec(t, mx, fields, 0);
            (SpecExpr::Struct { name, fields: a.0 }, a.1, a.2)
        },
        SpecExpr::Copy(inner) => {
            let x = fold_expr_spec(t, mx, *inner);
            (SpecExpr::Copy(Box::new(x.0)), x.1, x.2)
        },
        SpecExpr::Range { start, end, inclusive } => {
            let s = fold_expr_spec(t, mx, *start);
            let x = fold_expr_spec(t, mx, *end);
            (SpecExpr::Range { start: Box::new(s.0), end: Box::new(x.0), inclusive }, s.1 + x.1, s.2 + x.2)
        },
        SpecExpr::Cast { expr, target_type } => {
            let x = fold_expr_spec(t, mx, *expr);
            (SpecExpr::Cast { expr: Box::new(x.0), target_type }, x.1, x.2)
        },
        _ => (e, 0nat, 0nat),
    }
}

/// The expressions from index `i` on, folded in order.
pub open spec fn fold_exprs_spec(t: FnTable, mx: int, s: Seq<SpecExpr>, i: int) -> Folded<Seq<SpecExpr>>
    decreases s, s.len() - i,
{
    if i < 0 || i >= s.len() {
        (Seq::empty(), 0nat, 0nat)
    } else {
        let x = fold_expr_spec(t, mx, s[i]);
        let rest = fold_exprs_spec(t, mx, s, i + 1);
        (seq![x.0] + rest.0, x.1 + rest.1, x.2 + rest.2)
    }
}

/// The named expressions from index `i` on, folded in order.
pub open spec fn fold_named_spec(t: FnTable, mx: int, s: Seq<(String, SpecExpr)>, i: int) -> Folded<
    Seq<(String, SpecExpr)>,
>
    decreases s, s.len() - i,
{
    if i < 0 || i >= s.len() {
        (Seq::empty(), 0nat, 0nat)
    } else {
        let x = fold_expr_spec(t, mx, s[i].1);
        let rest = fold_named_spec(t, mx, s, i + 1);
        (seq![(s[i].0, x.0)] + rest.0, x.1 + rest.1, x.2 + rest.2)
    }
}

pub open spec fn fold_arm_spec(t: FnTable, mx: int, a: SpecArm) -> Folded<SpecArm>
    decreases a, 1int,
{
    match a.body {
        SpecBody::Expr(e) => {
            let x = fold_expr_spec(t, mx, e);
            (SpecArm { pattern: a.pattern, body: SpecBody::Expr(x.0) }, x.1, x.2)
        },
        SpecBody::Block(b) => {
            let x = fold_block_spec(t, mx, b);
            (SpecArm { pattern: a.pattern, body: SpecBody::Block(x.0) }, x.1, x.2)
        },
    }
}

/// The arms from index `i` on, folded in order.
pub open spec fn fold_arms_spec(t: FnTable, mx: int, s: Seq<SpecArm>, i: int) -> Folded<Seq<SpecArm>>
    decreases s, s.len() - i,
{
    if i < 0 || i >= s.len() {
        (Seq::empty(), 0nat, 0nat)
    } else {
        let x = fold_arm_spec(t, mx, s[i]);
        let rest = fold_arms_spec(t, mx, s, i + 1);
        (seq![x.0] + rest.0, x.1 + rest.1, x.2 + rest.2)
    }
}

pub open spec fn fold_block_spec(t: FnTable, mx: int, b: SpecBlock) -> Folded<SpecBlock>
    decreases b, 2int,
{
    let x = fold_stmts_spec(t, mx, b.statements, 0);
    (SpecBlock { statements: x.0 }, x.1, x.2)
}

pub open spec fn fold_opt_block_spec(t: FnTable, mx: int, b: Option<SpecBlock>) -> Folded<
    Option<SpecBlock>,
>
    decreases b, 3int,
{
    match b {
        Some(blk) => {
            let x = fold_block_spec(t, mx, blk);
            (Some(x.0), x.1, x.2)
        },
        None => (None, 0nat, 0nat),
    }
}

/// The statements from index `i` on, folded in order.
pub open spec fn fold_stmts_spec(t: FnTable, mx: int, s: Seq<SpecStmt>, i: int) -> Folded<Seq<SpecStmt>>
    decreases s, s.len() - i,
{
    if i < 0 || i >= s.len() {
        (Seq::empty(), 0nat, 0nat)
    } else {
        let x = fold_stmt_spec(t, mx, s[i]);
        let rest = fold_stmts_spec(t, mx, s, i + 1);
        (seq![x.0] + rest.0, x.1 + rest.1, x.2 + rest.2)
    }
}

pub open spec fn fold_stmt_spec(t: FnTable, mx: int, s: SpecStmt) -> Folded<SpecStmt>
    decreases s, 1int,
{
    match s {
        SpecStmt::Let { name, ty, value } => {
            let x = fold_expr_spec(t, mx, value);
            (SpecStmt::Let { name, ty, value: x.0 }, x.1, x.2)
        },
        SpecStmt::Assign { target, value } => {
            let a = fold_expr_spec(t, mx, target);
            let b = fold_expr_spec(t, mx, value);
            (SpecStmt::Assign { target: a.0, value: b.0 }, a.1 + b.1, a.2 + b.2)
        },
        SpecStmt::Return(Some(e)) => {
            let x = fold_expr_spec(t, mx, e);
            (SpecStmt::Return(Some(x.0)), x.1, x.2)
        },
        SpecStmt::Expr(e) => {
            let x = fold_expr_spec(t, mx, e);
            (SpecStmt::Expr(x.0), x.1, x.2)
        },
        SpecStmt::If { condition, then_block, else_block } => {
            let c = fold_expr_spec(t, mx, condition);
            let a = fold_block_spec(t, mx, then_block);
            let b = fold_opt_block_spec(t, mx, else_block);
            (
                SpecStmt::If { condition: c.0, then_block: a.0, else_block: b.0 },
                c.1 + a.1 + b.1,
                c.2 + a.2 + b.2,
            )
        },
        SpecStmt::Match { expr, arms } => {
            let x = fold_expr_spec(t, mx, expr);
            let a = fold_arms_spec(t, mx, arms, 0);
            (SpecStmt::Match { expr: x.0, arms: a.0 }, x.1 + a.1, x.2 + a.2)
        },
        SpecStmt::Defer(b) => {
            let x = fold_block_spec(t, mx, b);
            (SpecStmt::Defer(x.0), x.1, x.2)
        },
        SpecStmt::Send { message, target, args } => {
            let m = fold_expr_spec(t, mx, message);
            let a = fold_named_spec(t, mx, args, 0);
            (SpecStmt::Send { message: m.0, target, args: a.0 }, m.1 + a.1, m.2 + a.2)
        },
        SpecStmt::For { var, iter, body } => {
            let x = fold_expr_spec(t, mx, iter);
            let b = fold_block_spec(t, mx, body);
            (SpecStmt::For { var, iter: x.0, body: b.0 }, x.1 + b.1, x.2 + b.2)
        },
        SpecStmt::Loop(b) => {
            let x = fold_block_spec(t, mx, b);
            (SpecStmt::Loop(x.0), x.1, x.2)
        },
        SpecStmt::While { condition, body } => {
            let c = fold_expr_spec(t, mx, condition);
            let b = fold_block_spec(t, mx, body);
            (SpecStmt::While { condition: c.0, body: b.0 }, c.1 + b.1, c.2 + b.2)
        },
        _ => (s, 0nat, 0nat),
    }
}

// ---------------------------------------------------------------------------
// Folding reaches a fixpoint in one pass
// ---------------------------------------------------------------------------
/// Folding `e` again changes nothing and folds no call.
pub open spec fn expr_fixed(t: FnTable, mx: int, e: SpecExpr) -> bool {
    fold_expr_spec(t, mx, e).0 == e && fold_expr_spec(t, mx, e).1 == 0
}

pub open spec fn exprs_fixed(t: FnTable, mx: int, s: Seq<SpecExpr>) -> bool {
    fold_exprs_spec(t, mx, s, 0).0 == s && fold_exprs_spec(t, mx, s, 0).1 == 0
}

pub open spec fn named_fixed(t: FnTable, mx: int, s: Seq<(String, SpecExpr)>) -> bool {
    fold_named_spec(t, mx, s, 0).0 == s && fold_named_spec(t, mx, s, 0).1 == 0
}

pub open spec fn arms_fixed(t: FnTable, mx: int, s: Seq<SpecArm>) -> bool {
    fold_arms_spec(t, mx, s, 0).0 == s && fold_arms_spec(t, mx, s, 0).1 == 0
}

pub open spec fn stmts_fixed(t: FnTable, mx: int, s: Seq<SpecStmt>) -> bool {
    fold_stmts_spec(t, mx, s, 0).0 == s && fold_stmts_spec(t, mx, s, 0).1 == 0
}

pub open spec fn block_fixed(t: FnTable, mx: int, b: SpecBlock) -> bool {
    fold_block_spec(t, mx, b).0 == b && fold_block_spec(t, mx, b).1 == 0
}

proof fn lemma_exprs_shift(t: FnTable, mx: int, a: SpecExpr, s: Seq<SpecExpr>, j: int)
    requires
        0 <= j,
    ensures
        fold_exprs_spec(t, mx, seq![a] + s, j + 1) == fold_exprs_spec(t, mx, s, j),
    decreases s.len() - j,
{
    if j < s.len() {
        assert((seq![a] + s)[j + 1] == s[j]);
        lemma_exprs_shift(t, mx, a, s, j + 1);
    }
}

proof fn lemma_named_shift(t: FnTable, mx: int, a: (String, SpecExpr), s: Seq<(String, SpecExpr)>, j: int)
    requires
        0 <= j,
    ensures
        fold_named_spec(t, mx, seq![a] + s, j + 1) == fold_named_spec(t, mx, s, j),
    decreases s.len() - j,
{
    if j < s.len() {
        assert((seq![a] + s)[j + 1] == s[j]);
        lemma_named_shift(t, mx, a, s, j + 1);
    }
}

proof fn lemma_arms_shift(t: FnTable, mx: int, a: SpecArm, s: Seq<SpecArm>, j: int)
    requires
        0 <= j,
    ensures
        fold_arms_spec(t, mx, seq![a] + s, j + 1) == fold_arms_spec(t, mx, s, j),
    decreases s.len() - j,
{
    if j < s.len() {
        assert((seq![a] + s)[j + 1] == s[j]);
        lemma_arms_shift(t, mx, a, s, j + 1);
    }
}

proof fn lemma_stmts_shift(t: FnTable, mx: int, a: SpecStmt, s: Seq<SpecStmt>, j: int)
    requires
        0 <= j,
    ensures
        fold_stmts_spec(t, mx, seq![a] + s, j + 1) == fold_stmts_spec(t, mx, s, j),
    decreases s.len() - j,
{
    if j < s.len() {
        assert((seq![a] + s)[j + 1] == s[j]);
        lemma_stmts_shift(t, mx, a, s, j + 1);
    }
}

/// The literal of a value has no call in it.
proof fn lemma_value_expr_fixed(t: FnTable, mx: int, v: crate::comptime::ComptimeValue)
    ensures
        expr_fixed(t, mx, value_to_expr(v)),
    decreases v,
{
    if let crate::comptime::ComptimeValue::SomeOf(x) = v {
        lemma_value_expr_fixed(t, mx, *x);
    }
}

/// Folding a folded expression changes nothing and folds no further call,
/// as long as the comptime functions are the same.
pub proof fn lemma_fold_expr_idempotent(t: FnTable, mx: int, e: SpecExpr)
    ensures
        expr_fixed(t, mx, fold_expr_spec(t, mx, e).0),
    decreases e, 1int,
{
    match e {
        SpecExpr::Binary { left, right, .. } => {
            lemma_fold_expr_idempotent(t, mx, *left);
            lemma_fold_expr_idempotent(t, mx, *right);
        },
        SpecExpr::Unary { expr, .. } => lemma_fold_expr_idempotent(t, mx, *expr),
        SpecExpr::Call { func, args } => {
            lemma_fold_expr_idempotent(t, mx, *func);
            lemma_fold_exprs_idempotent(t, mx, args, 0);
            let f = fold_expr_spec(t, mx, *func);
            let a = fold_exprs_spec(t, mx, args, 0);
            let call = SpecExpr::Call { func: Box::new(f.0), args: a.0 };
            let c = fold_call(t, mx, call);
            if c.1 == 1 {
                if let SpecExpr::Call { func: g, .. } = call {
                    if let SpecExpr::Ident(name) = *g {
                        lemma_value_expr_fixed(t, mx, try_eval_spec(t, name@, a.0, mx)->0);
                    }
                }
            }
        },
        SpecExpr::Index { expr, index } => {
            lemma_fold_expr_idempotent(t, mx, *expr);
            lemma_fold_expr_idempotent(t, mx, *index);
        },
        SpecExpr::Field { expr, .. } => lemma_fold_expr_idempotent(t, mx, *expr),
        SpecExpr::Use { args, .. } => lemma_fold_named_idempotent(t, mx, args, 0),
        SpecExpr::Send { message, args, .. } => {
            lemma_fold_expr_idempotent(t, mx, *message);
            lemma_fold_named_idempotent(t, mx, args, 0);
        },
        SpecExpr::Lambda { body, .. } => lemma_fold_expr_idempotent(t, mx, *body),
        SpecExpr::If { condition, then_expr, else_expr } => {
            lemma_fold_expr_idempotent(t, mx, *condition);
            lemma_fold_expr_idempotent(t, mx, *then_expr);
            lemma_fold_expr_idempotent(t, mx, *else_expr);
        },
        SpecExpr::Match { expr, arms } => {
            lemma_fold_expr_idempotent(t, mx, *expr);
            lemma_fold_arms_idempotent(t, mx, arms, 0);
        },
        SpecExpr::Block(b) => lemma_fold_block_idempotent(t, mx, b),
        SpecExpr::SomeOf(inner) => lemma_fold_expr_idempotent(t, mx, *inner),
        SpecExpr::Array(items) => lemma_fold_exprs_idempotent(t, mx, items, 0),
        SpecExpr::Struct { fields, .. } => lemma_fold_named_idempotent(t, mx, fields, 0),
        SpecExpr::Copy(inner) => lemma_fold_expr_idempotent(t, mx, *inner),
        SpecExpr::Range { start, end, .. } => {
            lemma_fold_expr_idempotent(t, mx, *start);
            lemma_fold_expr_idempotent(t, mx, *end);
        },
        SpecExpr::Cast { expr, .. } => lemma_fold_expr_idempotent(t, mx, *expr),
        _ => {},
    }
}

proof fn lemma_fold_exprs_idempotent(t: FnTable, mx: int, s: Seq<SpecExpr>, i: int)
    ensures
        exprs_fixed(t, mx, fold_exprs_spec(t, mx, s, i).0),
    decreases s, s.len() - i,
{
    if 0 <= i < s.len() {
        lemma_fold_expr_idempotent(t, mx, s[i]);
        lemma_fold_exprs_idempotent(t, mx, s, i + 1);
        let x = fold_expr_spec(t, mx, s[i]).0;
        let rest = fold_exprs_spec(t, mx, s, i + 1).0;
        lemma_exprs_shift(t, mx, x, rest, 0);
        assert((seq![x] + rest)[0] == x);
    }
}

proof fn lemma_fold_named_idempotent(t: FnTable, mx: int, s: Seq<(String, SpecExpr)>, i: int)
    ensures
        named_fixed(t, mx, fold_named_spec(t, mx, s, i).0),
    decreases s, s.len() - i,
{
    if 0 <= i < s.len() {
        lemma_fold_expr_idempotent(t, mx, s[i].1);
        lemma_fold_named_idempotent(t, mx, s, i + 1);
        let x = (s[i].0, fold_expr_spec(t, mx, s[i].1).0);
        let rest = fold_named_spec(t, mx, s, i + 1).0;
        lemma_named_shift(t, mx, x, rest, 0);
        assert((seq![x] + rest)[0] == x);
    }
}

proof fn lemma_fold_arm_idempotent(t: FnTable, mx: int, a: SpecArm)
    ensures
        fold_arm_spec(t, mx, fold_arm_spec(t, mx, a).0).0 == fold_arm_spec(t, mx, a).0,
        fold_arm_spec(t, mx, fold_arm_spec(t, mx, a).0).1 == 0,
    decreases a, 1int,
{
    match a.body {
        SpecBody::Expr(e) => lemma_fold_expr_idempotent(t, mx, e),
        SpecBody::Block(b) => lemma_fold_block_idempotent(t, mx, b),
    }
}

proof fn lemma_fold_arms_idempotent(t: FnTable, mx: int, s: Seq<SpecArm>, i: int)
    ensures
        arms_fixed(t, mx, fold_arms_spec(t, mx, s, i).0),
    decreases s, s.len() - i,
{
    if 0 <= i < s.len() {
        lemma_fold_arm_idempotent(t, mx, s[i]);
        lemma_fold_arms_idempotent(t, mx, s, i + 1);
        let x = fold_arm_spec(t, mx, s[i]).0;
        let rest = fold_arms_spec(t, mx, s, i + 1).0;
        lemma_arms_shift(t, mx, x, rest, 0);
        assert((seq![x] + rest)[0] == x);
    }
}

proof fn lemma_fold_block_idempotent(t: FnTable, mx: int, b: SpecBlock)
    ensures
        block_fixed(t, mx, fold_block_spec(t, mx, b).0),
    decreases b, 2int,
{
    lemma_fold_stmts_idempotent(t, mx, b.statements, 0);
}

proof fn lemma_fold_opt_block_idempotent(t: FnTable, mx: int, b: Option<SpecBlock>)
    ensures
        fold_opt_block_spec(t, mx, fold_opt_block_spec(t, mx, b).0).0 == fold_opt_block_spec(
            t,
            mx,
            b,
        ).0,
        fold_opt_block_spec(t, mx, fold_opt_block_spec(t, mx, b).0).1 == 0,
    decreases b, 3int,
{
    if let Some(blk) = b {
        lemma_fold_block_idempotent(t, mx, blk);
    }
}

proof fn lemma_fold_stmts_idempotent(t: FnTable, mx: int, s: Seq<SpecStmt>, i: int)
    ensures
        stmts_fixed(t, mx, fold_stmts_spec(t, mx, s, i).0),
    decreases s, s.len() - i,
{
    if 0 <= i < s.len() {
        lemma_fold_stmt_idempotent(t, mx, s[i]);
        lemma_fold_stmts_idempotent(t, mx, s, i + 1);
        let x = fold_stmt_spec(t, mx, s[i]).0;
        let rest = fold_stmts_spec(t, mx, s, i + 1).0;
        lemma_stmts_shift(t, mx, x, rest, 0);
        assert((seq![x] + rest)[0] == x);
    }
}

proof fn lemma_fold_stmt_idempotent(t: FnTable, mx: int, s: SpecStmt)
    ensures
        fold_stmt_spec(t, mx, fold_stmt_spec(t, mx, s).0).0 == fold_stmt_spec(t, mx, s).0,
        fold_stmt_spec(t, mx, fold_stmt_spec(t, mx, s).0).1 == 0,
    decreases s, 1int,
{
    match s {
        SpecStmt::Let { value, .. } => lemma_fold_expr_idempotent(t, mx, value),
        SpecStmt::Assign { target, value } => {
            lemma_fold_expr_idempotent(t, mx, target);
            lemma_fold_expr_idempotent(t, mx, value);
        },
        SpecStmt::Return(Some(e)) => lemma_fold_expr_idempotent(t, mx, e),
        SpecStmt::Expr(e) => lemma_fold_expr_idempotent(t, mx, e),
        SpecStmt::If { condition, then_block, else_block } => {
            lemma_fold_expr_idempotent(t, mx, condition);
            lemma_fold_block_idempotent(t, mx, then_block);
            lemma_fold_opt_block_idempotent(t, mx, else_block);
        },
        SpecStmt::Match { expr, arms } => {
            lemma_fold_expr_idempotent(t, mx, expr);
            lemma_fold_arms_idempotent(t, mx, arms, 0);
        },
        SpecStmt::Defer(b) => lemma_fold_block_idempotent(t, mx, b),
        SpecStmt::Send { message, args, .. } => {
            lemma_fold_expr_idempotent(t, mx, message);
            lemma_fold_named_idempotent(t, mx, args, 0);
        },
        SpecStmt::For { iter, body, .. } => {
            lemma_fold_expr_idempotent(t, mx, iter);
            lemma_fold_block_idempotent(t, mx, body);
        },
        SpecStmt::Loop(b) => lemma_fold_block_idempotent(t, mx, b),
        SpecStmt::While { condition, body } => {
            lemma_fold_expr_idempotent(t, mx, condition);
            lemma_fold_block_idempotent(t, mx, body);
        },
        _ => {},
    }
}

// ---------------------------------------------------------------------------
// Kernels and files
// ---------------------------------------------------------------------------
/// The table of comptime functions of a list of kernels, registered in order.
pub open spec fn kernels_table(ks: Seq<Kernel>) -> FnTable
    decreases ks.len(),
{
    if ks.len() == 0 {
        Map::empty()
    } else {
        register_items(kernels_table(ks.drop_last()), ks.last().items@)
    }
}

/// `after` is `before` with the bodies of its functions and the values of
/// its constants folded; structs and enums are kept.
pub open spec fn item_folded(t: FnTable, mx: int, before: KernelItem, after: KernelItem) -> bool {
    match before {
        KernelItem::Function(f) => after matches KernelItem::Function(g) && g.name == f.name
            && g.attributes == f.attributes && g.params == f.params && g.return_type
            == f.return_type && g.body@ == fold_block_spec(t, mx, f.body@).0,
        KernelItem::ComptimeFn(f) => after matches KernelItem::ComptimeFn(g) && g.name == f.name
            && g.attributes == f.attributes && g.params == f.params && g.return_type
            == f.return_type && g.body@ == fold_block_spec(t, mx, f.body@).0,
        KernelItem::Const(c) => after matches KernelItem::Const(d) && d.name == c.name && d.ty
            == c.ty && d.value@ == fold_expr_spec(t, mx, c.value@).0,
        _ => after == before,
    }
}

/// The calls an item's folding folds and skips.
pub open spec fn item_counts(t: FnTable, mx: int, item: KernelItem) -> (nat, nat) {
    match item {
        KernelItem::Function(f) => {
            let x = fold_block_spec(t, mx, f.body@);
            (x.1, x.2)
        },
        KernelItem::ComptimeFn(f) => {
            let x = fold_block_spec(t, mx, f.body@);
            (x.1, x.2)
        },
        KernelItem::Const(c) => {
            let x = fold_expr_spec(t, mx, c.value@);
            (x.1, x.2)
        },
        _ => (0nat, 0nat),
    }
}

pub open spec fn items_counts(t: FnTable, mx: int, s: Seq<KernelItem>) -> (nat, nat)
    decreases s.len(),
{
    if s.len() == 0 {
        (0nat, 0nat)
    } else {
        let a = items_counts(t, mx, s.drop_last());
        let b = item_counts(t, mx, s.last());
        (a.0 + b.0, a.1 + b.1)
    }
}

pub open spec fn kernel_folded(t: FnTable, mx: int, before: Kernel, after: Kernel) -> bool {
    &&& after.name == before.name
    &&& after.items@.len() == before.items@.len()
    &&& forall|j: int|
        0 <= j < before.items@.len() ==> item_folded(
            t,
            mx,
            #[trigger] before.items@[j],
            after.items@[j],
        )
}

pub open spec fn kernels_counts(t: FnTable, mx: int, s: Seq<Kernel>) -> (nat, nat)
    decreases s.len(),
{
    if s.len() == 0 {
        (0nat, 0nat)
    } else {
        let a = kernels_counts(t, mx, s.drop_last());
        let b = items_counts(t, mx, s.last().items@);
        (a.0 + b.0, a.1 + b.1)
    }
}

/// The depth limit of the evaluator the pass uses.
pub open spec fn fold_depth() -> int {
    100
}

// ---------------------------------------------------------------------------
// The pass
// ---------------------------------------------------------------------------
fn fold_call_exec(func: Expr, args: Vec<Expr>, ev: &ComptimeEvaluator, stats: &mut ComptimeFoldStats) -> (r:
    Expr)
    ensures
        r@ == fold_call(
            ev.table(),
            ev.depth_limit(),
            SpecExpr::Call { func: Box::new(func@), args: exprs_view(args@) },
        ).0,
        *final(stats) == stats_after(
            *old(stats),
            fold_call(
                ev.table(),
                ev.depth_limit(),
                SpecExpr::Call { func: Box::new(func@), args: exprs_view(args@) },
            ).1,
            fold_call(
                ev.table(),
                ev.depth_limit(),
                SpecExpr::Call { func: Box::new(func@), args: exprs_view(args@) },
            ).2,
        ),
{
    let mut replacement: Option<Expr> = None;
    match &func {
        Expr::Ident(name) => {
            assert(func@ == SpecExpr::Ident(*name));
            if ev.is_comptime_fn(name.as_str()) {
                match ev.try_eval(name.as_str(), args.as_slice()) {
                    Some(v) => {
                        replacement = Some(v.to_expr());
                        stats.calls_folded = stats.calls_folded.saturating_add(1);
                    },
                    None => {
                        stats.calls_skipped = stats.calls_skipped.saturating_add(1);
                    },
                }
            }
        },
        _ => {
            assert(!(func@ is Ident));
        },
    }
    match replacement {
        Some(x) => x,
        None => Expr::Call { func: Box::new(func), args },
    }
}

#[verifier::rlimit(100)]
#[verifier::spinoff_prover]
fn fold_expr(e: &Expr, ev: &ComptimeEvaluator, stats: &mut ComptimeFoldStats) -> (r: Expr)
    ensures
        r@ == fold_expr_spec(ev.table(), ev.depth_limit(), e@).0,
        *final(stats) == stats_after(
            *old(stats),
            fold_expr_spec(ev.table(), ev.depth_limit(), e@).1,
            fold_expr_spec(ev.table(), ev.depth_limit(), e@).2,
        ),
    decreases e, 1int,
{
    match e {
        Expr::Binary { op, left, right } => {
            let l = fold_expr(left, ev, stats);
            let r = fold_expr(right, ev, stats);
            Expr::Binary { op: *op, left: Box::new(l), right: Box::new(r) }
        },
        Expr::Unary { op, expr } => {
            let x = fold_expr(expr, ev, stats);
            Expr::Unary { op: *op, expr: Box::new(x) }
        },
        Expr::Call { func, args } => {
            let f = fold_expr(func, ev, stats);
            let a = fold_exprs(args, ev, stats);
            fold_call_exec(f, a, ev, stats)
        },
        Expr::Index { expr, index } => {
            let x = fold_expr(expr, ev, stats);
            let i = fold_expr(index, ev, stats);
            Expr::Index { expr: Box::new(x), index: Box::new(i) }
        },
        Expr::Field { expr, field } => {
            let x = fold_expr(expr, ev, stats);
            Expr::Field { expr: Box::new(x), field: field.clone() }
        },
        Expr::Use { path, args } => {
            let a = fold_named(args, ev, stats);
            Expr::Use { path: copy_strings(path), args: a }
        },
        Expr::Send { message, target, args } => {
            let m = fold_expr(message, ev, stats);
            let a = fold_named(args, ev, stats);
            Expr::Send { message: Box::new(m), target: copy_strings(target), args: a }
        },
        Expr::Lambda { params, body } => {
            let b = fold_expr(body, ev, stats);
            Expr::Lambda { params: copy_params(params), body: Box::new(b) }
        },
        Expr::If { condition, then_expr, else_expr } => {
            let c = fold_expr(condition, ev, stats);
            let x = fold_expr(then_expr, ev, stats);
            let y = fold_expr(else_expr, ev, stats);
            Expr::If { condition: Box::new(c), then_expr: Box::new(x), else_expr: Box::new(y) }
        },
        Expr::Match { expr, arms } => {
            let x = fold_expr(expr, ev, stats);
            let a = fold_arms(arms, ev, stats);
            Expr::Match { expr: Box::new(x), arms: a }
        },
        Expr::Block(b) => {
            let x = fold_block(b, ev, stats);
            Expr::Block(x)
        },
        Expr::SomeOf(inner) => {
            let x = fold_expr(inner, ev, stats);
            Expr::SomeOf(Box::new(x))
        },
        Expr::Array(items) => {
            let a = fold_exprs(items, ev, stats);
            Expr::Array(a)
        },
        Expr::Struct { name, fields } => {
            let a = fold_named(fields, ev, stats);
            Expr::Struct { name: name.clone(), fields: a }
        },
        Expr::Copy(inner) => {
            let x = fold_expr(inner, ev, stats);
            Expr::Copy(Box::new(x))
        },
        Expr::Range { start, end, inclusive } => {
            let s = fold_expr(start, ev, stats);
            let x = fold_expr(end, ev, stats);
            Expr::Range { start: Box::new(s), end: Box::new(x), inclusive: *inclusive }
        },
        Expr::Cast { expr, target_type } => {
            let x = fold_expr(expr, ev, stats);
            Expr::Cast { expr: Box::new(x), target_type: copy_type(target_type) }
        },
        Expr::Literal(l) => Expr::Literal(copy_literal(l)),
        Expr::Ident(name) => Expr::Ident(name.clone()),
        Expr::NoneValue => Expr::NoneValue,
    }
}

#[verifier::rlimit(100)]
#[verifier::spinoff_prover]
fn fold_exprs(v: &Vec<Expr>, ev: &ComptimeEvaluator, stats: &mut ComptimeFoldStats) -> (r: Vec<Expr>)
    ensures
        exprs_view(r@) == fold_exprs_spec(ev.table(), ev.depth_limit(), exprs_view(v@), 0).0,
        *final(stats) == stats_after(
            *old(stats),
            fold_exprs_spec(ev.table(), ev.depth_limit(), exprs_view(v@), 0).1,
            fold_exprs_spec(ev.table(), ev.depth_limit(), exprs_view(v@), 0).2,
        ),
    decreases v, 0int,
{
    let ghost t = ev.table();
    let ghost mx = ev.depth_limit();
    let ghost sv = exprs_view(v@);
    let ghost mut f0: nat = 0;
    let ghost mut k0: nat = 0;
    let mut r: Vec<Expr> = Vec::new();
    let n = v.len();
    for i in 0..n
        invariant
            n == v@.len(),
            sv == exprs_view(v@),
            t == ev.table(),
            mx == ev.depth_limit(),
            fold_exprs_spec(t, mx, sv, 0).0 == exprs_view(r@) + fold_exprs_spec(t, mx, sv, i as int).0,
            fold_exprs_spec(t, mx, sv, 0).1 == f0 + fold_exprs_spec(t, mx, sv, i as int).1,
            fold_exprs_spec(t, mx, sv, 0).2 == k0 + fold_exprs_spec(t, mx, sv, i as int).2,
            *stats == stats_after(*old(stats), f0, k0),
    {
        assert(decreases_to!(v => v@[i as int]));
        let ghost before = r@;
        let x = fold_expr(&v[i], ev, stats);
        r.push(x);
        proof {
            let fx = fold_expr_spec(t, mx, sv[i as int]);
            assert(exprs_view(r@) =~= exprs_view(before).push(x@));
            assert(exprs_view(before) + (seq![fx.0] + fold_exprs_spec(t, mx, sv, i + 1).0) =~= (
            exprs_view(before).push(fx.0)) + fold_exprs_spec(t, mx, sv, i + 1).0);
            f0 = f0 + fx.1;
            k0 = k0 + fx.2;
        }
    }
    assert(exprs_view(r@) + Seq::<SpecExpr>::empty() =~= exprs_view(r@));
    r
}

#[verifier::rlimit(100)]
#[verifier::spinoff_prover]
fn fold_named(v: &Vec<(String, Expr)>, ev: &ComptimeEvaluator, stats: &mut ComptimeFoldStats) -> (r:
    Vec<(String, Expr)>)
    ensures
        named_exprs_view(r@) == fold_named_spec(
            ev.table(),
            ev.depth_limit(),
            named_exprs_view(v@),
            0,
        ).0,
        *final(stats) == stats_after(
            *old(stats),
            fold_named_spec(ev.table(), ev.depth_limit(), named_exprs_view(v@), 0).1,
            fold_named_spec(ev.table(), ev.depth_limit(), named_exprs_view(v@), 0).2,
        ),
    decreases v, 0int,
{
    let ghost t = ev.table();
    let ghost mx = ev.depth_limit();
    let ghost sv = named_exprs_view(v@);
    let ghost mut f0: nat = 0;
    let ghost mut k0: nat = 0;
    let mut r: Vec<(String, Expr)> = Vec::new();
    let n = v.len();
    for i in 0..n
        invariant
            n == v@.len(),
            sv == named_exprs_view(v@),
            t == ev.table(),
            mx == ev.depth_limit(),
            fold_named_spec(t, mx, sv, 0).0 == named_exprs_view(r@) + fold_named_spec(
                t,
                mx,
                sv,
                i as int,
            ).0,
            fold_named_spec(t, mx, sv, 0).1 == f0 + fold_named_spec(t, mx, sv, i as int).1,
            fold_named_spec(t, mx, sv, 0).2 == k0 + fold_named_spec(t, mx, sv, i as int).2,
            *stats == stats_after(*old(stats), f0, k0),
    {
        assert(decreases_to!(v => v@[i as int]));
        assert(decreases_to!(v@[i as int] => v@[i as int].1));
        let ghost before = r@;
        let x = fold_expr(&v[i].1, ev, stats);
        r.push((v[i].0.clone(), x));
        proof {
            let fx = fold_expr_spec(t, mx, sv[i as int].1);
            assert(named_exprs_view(r@) =~= named_exprs_view(before).push((v@[i as int].0, x@)));
            assert(named_exprs_view(before) + (seq![(sv[i as int].0, fx.0)] + fold_named_spec(
                t,
                mx,
                sv,
                i + 1,
            ).0) =~= (named_exprs_view(before).push((sv[i as int].0, fx.0))) + fold_named_spec(
                t,
                mx,
                sv,
                i + 1,
            ).0);
            f0 = f0 + fx.1;
            k0 = k0 + fx.2;
        }
    }
    assert(named_exprs_view(r@) + Seq::<(String, SpecExpr)>::empty() =~= named_exprs_view(r@));
    r
}

fn fold_arm(a: &MatchArm, ev: &ComptimeEvaluator, stats: &mut ComptimeFoldStats) -> (r: MatchArm)
    ensures
        r@ == fold_arm_spec(ev.table(), ev.depth_limit(), a@).0,
        *final(stats) == stats_after(
            *old(stats),
            fold_arm_spec(ev.table(), ev.depth_limit(), a@).1,
            fold_arm_spec(ev.table(), ev.depth_limit(), a@).2,
        ),
    decreases a, 1int,
{
    let body = match &a.body {
        MatchBody::Expr(e) => MatchBody::Expr(fold_expr(e, ev, stats)),
        MatchBody::Block(b) => MatchBody::Block(fold_block(b, ev, stats)),
    };
    MatchArm { pattern: copy_pattern(&a.pattern), body }
}

#[verifier::rlimit(100)]
#[verifier::spinoff_prover]
fn fold_arms(v: &Vec<MatchArm>, ev: &ComptimeEvaluator, stats: &mut ComptimeFoldStats) -> (r: Vec<
    MatchArm,
>)
    ensures
        arms_view(r@) == fold_arms_spec(ev.table(), ev.depth_limit(), arms_view(v@), 0).0,
        *final(stats) == stats_after(
            *old(stats),
            fold_arms_spec(ev.table(), ev.depth_limit(), arms_view(v@), 0).1,
            fold_arms_spec(ev.table(), ev.depth_limit(), arms_view(v@), 0).2,
        ),
    decreases v, 0int,
{
    let ghost t = ev.table();
    let ghost mx = ev.depth_limit();
    let ghost sv = arms_view(v@);
    let ghost mut f0: nat = 0;
    let ghost mut k0: nat = 0;
    let mut r: Vec<MatchArm> = Vec::new();
    let n = v.len();
    for i in 0..n
        invariant
            n == v@.len(),
            sv == arms_view(v@),
            t == ev.table(),
            mx == ev.depth_limit(),
            fold_arms_spec(t, mx, sv, 0).0 == arms_view(r@) + fold_arms_spec(t, mx, sv, i as int).0,
            fold_arms_spec(t, mx, sv, 0).1 == f0 + fold_arms_spec(t, mx, sv, i as int).1,
            fold_arms_spec(t, mx, sv, 0).2 == k0 + fold_arms_spec(t, mx, sv, i as int).2,
            *stats == stats_after(*old(stats), f0, k0),
    {
        assert(decreases_to!(v => v@[i as int]));
        let ghost before = r@;
        let x = fold_arm(&v[i], ev, stats);
        r.push(x);
        proof {
            let fx = fold_arm_spec(t, mx, sv[i as int]);
            assert(arms_view(r@) =~= arms_view(before).push(x@));
            assert(arms_view(before) + (seq![fx.0] + fold_arms_spec(t, mx, sv, i + 1).0) =~= (
            arms_view(before).push(fx.0)) + fold_arms_spec(t, mx, sv, i + 1).0);
            f0 = f0 + fx.1;
            k0 = k0 + fx.2;
        }
    }
    assert(arms_view(r@) + Seq::<SpecArm>::empty() =~= arms_view(r@));
    r
}

#[verifier::rlimit(100)]
#[verifier::spinoff_prover]
fn fold_block(b: &Block, ev: &ComptimeEvaluator, stats: &mut ComptimeFoldStats) -> (r: Block)
    ensures
        r@ == fold_block_spec(ev.table(), ev.depth_limit(), b@).0,
        *final(stats) == stats_after(
            *old(stats),
            fold_block_spec(ev.table(), ev.depth_limit(), b@).1,
            fold_block_spec(ev.table(), ev.depth_limit(), b@).2,
        ),
    decreases b, 2int,
{
    let ghost t = ev.table();
    let ghost mx = ev.depth_limit();
    let ghost sv = stmts_view(b.statements@);
    let ghost mut f0: nat = 0;
    let ghost mut k0: nat = 0;
    let mut r: Vec<Stmt> = Vec::new();
    let n = b.statements.len();
    for i in 0..n
        invariant
            n == b.statements@.len(),
            sv == stmts_view(b.statements@),
            t == ev.table(),
            mx == ev.depth_limit(),
            fold_stmts_spec(t, mx, sv, 0).0 == stmts_view(r@) + fold_stmts_spec(t, mx, sv, i as int).0,
            fold_stmts_spec(t, mx, sv, 0).1 == f0 + fold_stmts_spec(t, mx, sv, i as int).1,
            fold_stmts_spec(t, mx, sv, 0).2 == k0 + fold_stmts_spec(t, mx, sv, i as int).2,
            *stats == stats_after(*old(stats), f0, k0),
    {
        assert(decreases_to!(b => b.statements@[i as int]));
        let ghost before = r@;
        let x = fold_stmt(&b.statements[i], ev, stats);
        r.push(x);
        proof {
            lemma_stmts_view(b.statements@);
            let fx = fold_stmt_spec(t, mx, sv[i as int]);
            assert(stmts_view(r@) =~= stmts_view(before).push(x@));
            assert(stmts_view(before) + (seq![fx.0] + fold_stmts_spec(t, mx, sv, i + 1).0) =~= (
            stmts_view(before).push(fx.0)) + fold_stmts_spec(t, mx, sv, i + 1).0);
            f0 = f0 + fx.1;
            k0 = k0 + fx.2;
        }
    }
    assert(stmts_view(r@) + Seq::<SpecStmt>::empty() =~= stmts_view(r@));
    Block { statements: r }
}

#[verifier::rlimit(100)]
#[verifier::spinoff_prover]
fn fold_stmt(s: &Stmt, ev: &ComptimeEvaluator, stats: &mut ComptimeFoldStats) -> (r: Stmt)
    ensures
        r@ == fold_stmt_spec(ev.table(), ev.depth_limit(), s@).0,
        *final(stats) == stats_after(
            *old(stats),
            fold_stmt_spec(ev.table(), ev.depth_limit(), s@).1,
            fold_stmt_spec(ev.table(), ev.depth_limit(), s@).2,
        ),
    decreases s, 1int,
{
    match s {
        Stmt::Let { name, ty, value } => {
            let x = fold_expr(value, ev, stats);
            Stmt::Let { name: name.clone(), ty: copy_opt_type(ty), value: x }
        },
        Stmt::Assign { target, value } => {
            let a = fold_expr(target, ev, stats);
            let b = fold_expr(value, ev, stats);
            Stmt::Assign { target: a, value: b }
        },
        Stmt::Return(Some(e)) => {
            let x = fold_expr(e, ev, stats);
            Stmt::Return(Some(x))
        },
        Stmt::Return(None) => Stmt::Return(None),
        Stmt::Expr(e) => {
            let x = fold_expr(e, ev, stats);
            Stmt::Expr(x)
        },
        Stmt::If { condition, then_block, else_block } => {
            let c = fold_expr(condition, ev, stats);
            let a = fold_block(then_block, ev, stats);
            let b = match else_block {
                Some(eb) => Some(fold_block(eb, ev, stats)),
                None => None,
            };
            Stmt::If { condition: c, then_block: a, else_block: b }
        },
        Stmt::Match { expr, arms } => {
            let x = fold_expr(expr, ev, stats);
            let a = fold_arms(arms, ev, stats);
            Stmt::Match { expr: x, arms: a }
        },
        Stmt::Defer(b) => {
            let x = fold_block(b, ev, stats);
            Stmt::Defer(x)
        },
        Stmt::Send { message, target, args } => {
            let m = fold_expr(message, ev, stats);
            let a = fold_named(args, ev, stats);
            Stmt::Send { message: m, target: target.clone(), args: a }
        },
        Stmt::For { var, iter, body } => {
            let x = fold_expr(iter, ev, stats);
            let b = fold_block(body, ev, stats);
            Stmt::For { var: var.clone(), iter: x, body: b }
        },
        Stmt::Loop(b) => {
            let x = fold_block(b, ev, stats);
            Stmt::Loop(x)
        },
        Stmt::While { condition, body } => {
            let c = fold_expr(condition, ev, stats);
            let b = fold_block(body, ev, stats);
            Stmt::While { condition: c, body: b }
        },
        Stmt::Break => Stmt::Break,
        Stmt::Continue => Stmt::Continue,
    }
}

/// Folds one item, which it takes and gives back.
fn fold_item(item: KernelItem, ev: &ComptimeEvaluator, stats: &mut ComptimeFoldStats) -> (r:
    KernelItem)
    ensures
        item_folded(ev.table(), ev.depth_limit(), item, r),
        *final(stats) == stats_after(
            *old(stats),
            item_counts(ev.table(), ev.depth_limit(), item).0,
            item_counts(ev.table(), ev.depth_limit(), item).1,
        ),
{
    match item {
        KernelItem::Function(f) => {
            let Function { name, attributes, params, return_type, body } = f;
            let b = fold_block(&body, ev, stats);
            KernelItem::Function(Function { name, attributes, params, return_type, body: b })
        },
        KernelItem::ComptimeFn(f) => {
            let Function { name, attributes, params, return_type, body } = f;
            let b = fold_block(&body, ev, stats);
            KernelItem::ComptimeFn(Function { name, attributes, params, return_type, body: b })
        },
        KernelItem::Const(c) => {
            let ConstDef { name, ty, value } = c;
            let v = fold_expr(&value, ev, stats);
            KernelItem::Const(ConstDef { name, ty, value: v })
        },
        other => other,
    }
}

/// Folds the items of one kernel in place.
fn fold_kernel(kernel: &mut Kernel, ev: &ComptimeEvaluator, stats: &mut ComptimeFoldStats)
    ensures
        kernel_folded(ev.table(), ev.depth_limit(), *old(kernel), *final(kernel)),
        *final(stats) == stats_after(
            *old(stats),
            items_counts(ev.table(), ev.depth_limit(), old(kernel).items@).0,
            items_counts(ev.table(), ev.depth_limit(), old(kernel).items@).1,
        ),
{
    let ghost t = ev.table();
    let ghost mx = ev.depth_limit();
    let ghost orig = kernel.items@;
    let n = kernel.items.len();
    for j in 0..n
        invariant
            n == orig.len(),
            t == ev.table(),
            mx == ev.depth_limit(),
            orig == old(kernel).items@,
            kernel.name == old(kernel).name,
            kernel.items@.len() == n,
            forall|jj: int| 0 <= jj < j ==> item_folded(t, mx, #[trigger] orig[jj], kernel.items@[jj]),
            forall|jj: int| j <= jj < n ==> #[trigger] kernel.items@[jj] == orig[jj],
            *stats == stats_after(
                *old(stats),
                items_counts(t, mx, orig.take(j as int)).0,
                items_counts(t, mx, orig.take(j as int)).1,
            ),
    {
        assert(orig.take(j + 1).drop_last() =~= orig.take(j as int));
        let mut taken = KernelItem::Const(
            ConstDef { name: String::new(), ty: Type::I32, value: Expr::NoneValue },
        );
        kernel.items.set_and_swap(j, &mut taken);
        let folded = fold_item(taken, ev, stats);
        kernel.items.set(j, folded);
    }
    assert(orig.take(n as int) =~= orig);
}

/// The evaluator that knows the comptime functions of all the kernels.
fn build_evaluator(kernels: &Vec<Kernel>) -> (ev: ComptimeEvaluator)
    ensures
        ev.table() == kernels_table(kernels@),
        ev.depth_limit() == fold_depth(),
{
    let mut ev = ComptimeEvaluator::new();
    let n = kernels.len();
    for k in 0..n
        invariant
            n == kernels@.len(),
            ev.table() == kernels_table(kernels@.take(k as int)),
            ev.depth_limit() == fold_depth(),
    {
        assert(kernels@.take(k + 1).drop_last() =~= kernels@.take(k as int));
        ev.register_kernel(&kernels[k]);
    }
    assert(kernels@.take(n as int) =~= kernels@);
    ev
}

/// Run the comptime constant folding pass on an entire file.
/// This mutates the AST in-place, replacing comptime fn calls with their
/// evaluated results. Where the file has no comptime function, nothing
/// changes.
pub fn fold_comptime_calls(file: &mut File) -> (stats: ComptimeFoldStats)
    ensures
        kernels_table(old(file).kernels@) == Map::<Seq<char>, crate::comptime::FnDef>::empty()
            ==> *final(file) == *old(file) && stats == (ComptimeFoldStats {
            calls_folded: 0,
            calls_skipped: 0,
        }),
        kernels_table(old(file).kernels@) != Map::<Seq<char>, crate::comptime::FnDef>::empty() ==> {
            let t = kernels_table(old(file).kernels@);
            &&& final(file).shells == old(file).shells
            &&& final(file).views == old(file).views
            &&& final(file).kernels@.len() == old(file).kernels@.len()
            &&& forall|k: int|
                0 <= k < old(file).kernels@.len() ==> kernel_folded(
                    t,
                    fold_depth(),
                    #[trigger] old(file).kernels@[k],
                    final(file).kernels@[k],
                )
            &&& stats == stats_after(
                ComptimeFoldStats { calls_folded: 0, calls_skipped: 0 },
                kernels_counts(t, fold_depth(), old(file).kernels@).0,
                kernels_counts(t, fold_depth(), old(file).kernels@).1,
            )
        },
{
    let mut stats = ComptimeFoldStats { calls_folded: 0, calls_skipped: 0 };
    let evaluator = build_evaluator(&file.kernels);
    if !evaluator.has_functions() {
        return stats;
    }
    let ghost t = evaluator.table();
    let ghost orig = file.kernels@;
    let n = file.kernels.len();
    for k in 0..n
        invariant
            n == orig.len(),
            t == evaluator.table(),
            t == kernels_table(orig),
            evaluator.depth_limit() == fold_depth(),
            orig == old(file).kernels@,
            file.shells == old(file).shells,
            file.views == old(file).views,
            file.kernels@.len() == n,
            forall|kk: int|
                0 <= kk < k ==> kernel_folded(t, fold_depth(), #[trigger] orig[kk], file.kernels@[kk]),
            forall|kk: int| k <= kk < n ==> #[trigger] file.kernels@[kk] == orig[kk],
            stats == stats_after(
                ComptimeFoldStats { calls_folded: 0, calls_skipped: 0 },
                kernels_counts(t, fold_depth(), orig.take(k as int)).0,
                kernels_counts(t, fold_depth(), orig.take(k as int)).1,
            ),
    {
        assert(orig.take(k + 1).drop_last() =~= orig.take(k as int));
        let mut kernel = Kernel { name: String::new(), items: Vec::new() };
        file.kernels.set_and_swap(k, &mut kernel);
        fold_kernel(&mut kernel, &evaluator, &mut stats);
        file.kernels.set(k, kernel);
    }
    assert(orig.take(n as int) =~= orig);
    stats
}

} // verus!
