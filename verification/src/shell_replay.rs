//! Why running a handler again with more replies is sound: a run uses only
//! the replies it was given, and stops to ask for one only when it has used
//! them all, so the reply it asks for is the next one of the list; and a run
//! that did not stop to ask is the same run with any replies added after the
//! ones it was given. So a caller that adds the reply asked for and runs
//! again repeats everything up to that point and goes on from there.
use vstd::prelude::*;
use crate::ast::{Agent, BinaryOp, Block, Expr, File, MatchArm, MatchBody, StateDecl, Stmt};
use crate::shell_exec::{
    EnvView, Flow, Io, StopView, arms_run, arms_value, ask, bind_all, binary, block_run, block_value, defers_run,
    display, display_fields, display_items, ends_block, eval, eval_binary_expr, eval_call, eval_if, eval_index,
    eval_list, eval_match, eval_named, eval_send, eval_use, exec, exec_assign, exec_for, exec_if, exec_match,
    exec_send, named_step, init_agents, init_state, items_run, loop_run, range_run, while_run,
};
use crate::shell_runtime::use_target;
use crate::shell_values::{ValueView, pattern_bindings};

verus! {

/// The stops that ask for a reply.
pub open spec fn asks(s: StopView) -> bool {
    match s {
        StopView::Kernel(..) | StopView::FloatOp(..) | StopView::IntCompare(..) | StopView::FloatText(..) => true,
        _ => false,
    }
}

/// A result that is not a stop asking for a reply.
pub open spec fn settled<T>(r: Result<T, StopView>) -> bool {
    match r {
        Err(s) => !asks(s),
        Ok(_) => true,
    }
}

proof fn lemma_ask(q: StopView, used: nat, ans: Seq<ValueView>, extra: Seq<ValueView>)
    requires
        asks(q),
    ensures
        settled(ask(q, used, ans).res) ==> ask(q, used, ans + extra) == ask(q, used, ans),
{
}

proof fn lemma_display(v: ValueView, used: nat, ans: Seq<ValueView>, extra: Seq<ValueView>)
    ensures
        settled(display(v, used, ans).res) ==> display(v, used, ans + extra) == display(v, used, ans),
    decreases v, 0int,
{
    match v {
        ValueView::Float(b) => lemma_ask(StopView::FloatText(b), used, ans, extra),
        ValueView::Opt(Some(x)) => lemma_display(*x, used, ans, extra),
        ValueView::Array(xs) => lemma_display_items(xs, 0, used, ans, extra, Seq::empty()),
        ValueView::Struct(fs) => lemma_display_fields(fs, 0, used, ans, extra, Seq::empty()),
        _ => {},
    }
}

proof fn lemma_display_items(xs: Seq<ValueView>, i: int, used: nat, ans: Seq<ValueView>, extra: Seq<ValueView>, acc: Seq<char>)
    ensures
        settled(display_items(xs, i, used, ans, acc).res) ==> display_items(xs, i, used, ans + extra, acc) == display_items(xs, i, used, ans, acc),
    decreases xs, xs.len() - i,
{
    if 0 <= i < xs.len() {
        lemma_display(xs[i], used, ans, extra);
        let o = display(xs[i], used, ans);
        match o.res {
            Ok(s) => lemma_display_items(xs, i + 1, o.used, ans, extra, if i == 0 { s } else { acc + ", "@ + s }),
            Err(_) => {},
        }
    }
}

proof fn lemma_display_fields(fs: Seq<(Seq<char>, ValueView)>, i: int, used: nat, ans: Seq<ValueView>, extra: Seq<ValueView>, acc: Seq<char>)
    ensures
        settled(display_fields(fs, i, used, ans, acc).res) ==> display_fields(fs, i, used, ans + extra, acc) == display_fields(fs, i, used, ans, acc),
    decreases fs, fs.len() - i,
{
    if 0 <= i < fs.len() {
        assert(decreases_to!(fs => fs[i]));
        lemma_display(fs[i].1, used, ans, extra);
        let o = display(fs[i].1, used, ans);
        match o.res {
            Ok(s) => {
                let item = fs[i].0 + ": "@ + s;
                lemma_display_fields(fs, i + 1, o.used, ans, extra, if i == 0 { item } else { acc + ", "@ + item });
            },
            Err(_) => {},
        }
    }
}

proof fn lemma_binary(op: BinaryOp, a: ValueView, b: ValueView, used: nat, ans: Seq<ValueView>, extra: Seq<ValueView>)
    ensures
        settled(binary(op, a, b, used, ans).res) ==> binary(op, a, b, used, ans + extra) == binary(op, a, b, used, ans),
{
    match (a, b) {
        (ValueView::Float(x), ValueView::Float(y)) => lemma_ask(StopView::FloatOp(op, x, y), used, ans, extra),
        (ValueView::Int(x), ValueView::Int(y)) => lemma_ask(StopView::IntCompare(op, x, y), used, ans, extra),
        _ => {},
    }
    lemma_display(a, used, ans, extra);
    lemma_display(b, used, ans, extra);
}

/// A run that did not stop to ask for a reply is the same with more replies:
/// an expression.
pub proof fn lemma_eval_more_replies(file: File, f: nat, e: Expr, env: EnvView, io: Io, ans: Seq<ValueView>, extra: Seq<ValueView>)
    ensures
        settled(eval(file, f, e, env, io, ans).res) ==> eval(file, f, e, env, io, ans + extra) == eval(file, f, e, env, io, ans),
    decreases f, 0int,
{
    if f > 0 {
        let g = (f - 1) as nat;
        match e {
            Expr::Binary { op, left, right } => lemma_binary_expr(file, g, op, *left, *right, env, io, ans, extra),
            Expr::Unary { op, expr } => lemma_eval_more_replies(file, g, *expr, env, io, ans, extra),
            Expr::Call { func, args } => lemma_call(file, g, *func, args@, env, io, ans, extra),
            Expr::Index { expr, index } => lemma_index(file, g, *expr, *index, env, io, ans, extra),
            Expr::Field { expr, field } => lemma_eval_more_replies(file, g, *expr, env, io, ans, extra),
            Expr::Use { path, args } => lemma_use(file, g, path, args, env, io, ans, extra),
            Expr::Send { message, target, args } => lemma_send_expr(file, g, *message, target@, args@, env, io, ans, extra),
            Expr::If { condition, then_expr, else_expr } => lemma_if_expr(file, g, *condition, *then_expr, *else_expr, env, io, ans, extra),
            Expr::Match { expr, arms } => lemma_match_expr(file, g, *expr, arms@, env, io, ans, extra),
            Expr::Block(b) => lemma_block_value(file, g, b.statements@, 0, env, io, ans, extra, ValueView::Unit),
            Expr::SomeOf(x) => lemma_eval_more_replies(file, g, *x, env, io, ans, extra),
            Expr::Array(es) => lemma_list(file, g, es@, 0, env, io, ans, extra, Seq::empty()),
            Expr::Struct { name, fields } => lemma_named(file, g, fields@, 0, false, env, io, ans, extra, Seq::empty()),
            Expr::Copy(x) => lemma_eval_more_replies(file, g, *x, env, io, ans, extra),
            Expr::Cast { expr, .. } => lemma_eval_more_replies(file, g, *expr, env, io, ans, extra),
            _ => {},
        }
    }
}

proof fn lemma_binary_expr(file: File, f: nat, op: BinaryOp, left: Expr, right: Expr, env: EnvView, io: Io, ans: Seq<ValueView>, extra: Seq<ValueView>)
    ensures
        settled(eval_binary_expr(file, f, op, left, right, env, io, ans).res) ==> eval_binary_expr(file, f, op, left, right, env, io, ans + extra) == eval_binary_expr(file, f, op, left, right, env, io, ans),
    decreases f, 2int,
{
    lemma_eval_more_replies(file, f, left, env, io, ans, extra);
    let o1 = eval(file, f, left, env, io, ans);
    if let Ok(a) = o1.res {
        lemma_eval_more_replies(file, f, right, env, o1.io, ans, extra);
        let o2 = eval(file, f, right, env, o1.io, ans);
        if let Ok(b) = o2.res {
            lemma_binary(op, a, b, o2.io.used, ans, extra);
        }
    }
}

proof fn lemma_call(file: File, f: nat, func: Expr, args: Seq<Expr>, env: EnvView, io: Io, ans: Seq<ValueView>, extra: Seq<ValueView>)
    ensures
        settled(eval_call(file, f, func, args, env, io, ans).res) ==> eval_call(file, f, func, args, env, io, ans + extra) == eval_call(file, f, func, args, env, io, ans),
    decreases f, 2int,
{
    if args.len() == 1 {
        lemma_eval_more_replies(file, f, args[0], env, io, ans, extra);
    }
}

proof fn lemma_index(file: File, f: nat, expr: Expr, index: Expr, env: EnvView, io: Io, ans: Seq<ValueView>, extra: Seq<ValueView>)
    ensures
        settled(eval_index(file, f, expr, index, env, io, ans).res) ==> eval_index(file, f, expr, index, env, io, ans + extra) == eval_index(file, f, expr, index, env, io, ans),
    decreases f, 2int,
{
    lemma_eval_more_replies(file, f, expr, env, io, ans, extra);
    let o1 = eval(file, f, expr, env, io, ans);
    if o1.res is Ok {
        lemma_eval_more_replies(file, f, index, env, o1.io, ans, extra);
    }
}

proof fn lemma_use(file: File, f: nat, path: Vec<String>, args: Vec<(String, Expr)>, env: EnvView, io: Io, ans: Seq<ValueView>, extra: Seq<ValueView>)
    ensures
        settled(eval_use(file, f, path, args, env, io, ans).res) ==> eval_use(file, f, path, args, env, io, ans + extra) == eval_use(file, f, path, args, env, io, ans),
    decreases f, 2int,
{
    if let Ok(sig) = use_target(file, path@, args@) {
        lemma_named(file, f, args@, 0, true, env, io, ans, extra, Seq::empty());
        let o = eval_named(file, f, args@, 0, true, env, io, ans, Seq::empty());
        if let Ok(fs) = o.res {
            lemma_ask(StopView::Kernel(sig, fs), o.io.used, ans, extra);
        }
    }
}

proof fn lemma_send_expr(file: File, f: nat, message: Expr, target: Seq<String>, args: Seq<(String, Expr)>, env: EnvView, io: Io, ans: Seq<ValueView>, extra: Seq<ValueView>)
    ensures
        settled(eval_send(file, f, message, target, args, env, io, ans).res) ==> eval_send(file, f, message, target, args, env, io, ans + extra) == eval_send(file, f, message, target, args, env, io, ans),
    decreases f, 2int,
{
    lemma_eval_more_replies(file, f, message, env, io, ans, extra);
    let o = eval(file, f, message, env, io, ans);
    if o.res is Ok {
        lemma_named(file, f, args, 0, false, env, o.io, ans, extra, Seq::empty());
    }
}

proof fn lemma_if_expr(file: File, f: nat, cond: Expr, then_expr: Expr, else_expr: Expr, env: EnvView, io: Io, ans: Seq<ValueView>, extra: Seq<ValueView>)
    ensures
        settled(eval_if(file, f, cond, then_expr, else_expr, env, io, ans).res) ==> eval_if(file, f, cond, then_expr, else_expr, env, io, ans + extra) == eval_if(file, f, cond, then_expr, else_expr, env, io, ans),
    decreases f, 2int,
{
    lemma_eval_more_replies(file, f, cond, env, io, ans, extra);
    let o = eval(file, f, cond, env, io, ans);
    if o.res is Ok {
        lemma_eval_more_replies(file, f, then_expr, env, o.io, ans, extra);
        lemma_eval_more_replies(file, f, else_expr, env, o.io, ans, extra);
    }
}

proof fn lemma_match_expr(file: File, f: nat, expr: Expr, arms: Seq<MatchArm>, env: EnvView, io: Io, ans: Seq<ValueView>, extra: Seq<ValueView>)
    ensures
        settled(eval_match(file, f, expr, arms, env, io, ans).res) ==> eval_match(file, f, expr, arms, env, io, ans + extra) == eval_match(file, f, expr, arms, env, io, ans),
    decreases f, 2int,
{
    lemma_eval_more_replies(file, f, expr, env, io, ans, extra);
    let o = eval(file, f, expr, env, io, ans);
    if let Ok(v) = o.res {
        lemma_arms_value(file, f, arms, 0, v, env, o.io, ans, extra);
    }
}

proof fn lemma_list(file: File, f: nat, es: Seq<Expr>, i: int, env: EnvView, io: Io, ans: Seq<ValueView>, extra: Seq<ValueView>, acc: Seq<ValueView>)
    ensures
        settled(eval_list(file, f, es, i, env, io, ans, acc).res) ==> eval_list(file, f, es, i, env, io, ans + extra, acc) == eval_list(file, f, es, i, env, io, ans, acc),
    decreases f, 1int,
{
    if 0 <= i < es.len() && f > 0 {
        let g = (f - 1) as nat;
        lemma_eval_more_replies(file, g, es[i], env, io, ans, extra);
        let o = eval(file, g, es[i], env, io, ans);
        if let Ok(v) = o.res {
            lemma_list(file, g, es, i + 1, env, o.io, ans, extra, acc.push(v));
        }
    }
}

proof fn lemma_named(file: File, f: nat, args: Seq<(String, Expr)>, i: int, keep_all: bool, env: EnvView, io: Io, ans: Seq<ValueView>, extra: Seq<ValueView>, acc: Seq<(Seq<char>, ValueView)>)
    ensures
        settled(eval_named(file, f, args, i, keep_all, env, io, ans, acc).res) ==> eval_named(file, f, args, i, keep_all, env, io, ans + extra, acc) == eval_named(file, f, args, i, keep_all, env, io, ans, acc),
    decreases f, 1int,
{
    if 0 <= i < args.len() && f > 0 {
        let g = (f - 1) as nat;
        lemma_eval_more_replies(file, g, args[i].1, env, io, ans, extra);
        let o = eval(file, g, args[i].1, env, io, ans);
        if let Ok(v) = o.res {
            lemma_named(file, g, args, i + 1, keep_all, env, o.io, ans, extra, named_step(acc, args[i].0@, v, keep_all));
        }
    }
}

proof fn lemma_arms_value(file: File, f: nat, arms: Seq<MatchArm>, i: int, v: ValueView, env: EnvView, io: Io, ans: Seq<ValueView>, extra: Seq<ValueView>)
    ensures
        settled(arms_value(file, f, arms, i, v, env, io, ans).res) ==> arms_value(file, f, arms, i, v, env, io, ans + extra) == arms_value(file, f, arms, i, v, env, io, ans),
    decreases f, 1int,
{
    if 0 <= i < arms.len() && f > 0 {
        let g = (f - 1) as nat;
        match pattern_bindings(arms[i].pattern, v) {
            None => lemma_arms_value(file, g, arms, i + 1, v, env, io, ans, extra),
            Some(bs) => {
                let env2 = bind_all(env, bs);
                match arms[i].body {
                    MatchBody::Expr(e) => lemma_eval_more_replies(file, g, e, env2, io, ans, extra),
                    MatchBody::Block(b) => lemma_block_run(file, g, b.statements@, 0, Seq::empty(), true, env2, io, ans, extra),
                }
            },
        }
    }
}

proof fn lemma_block_value(file: File, f: nat, stmts: Seq<Stmt>, i: int, env: EnvView, io: Io, ans: Seq<ValueView>, extra: Seq<ValueView>, last: ValueView)
    ensures
        settled(block_value(file, f, stmts, i, env, io, ans, last).res) ==> block_value(file, f, stmts, i, env, io, ans + extra, last) == block_value(file, f, stmts, i, env, io, ans, last),
    decreases f, 1int,
{
    if 0 <= i < stmts.len() && f > 0 {
        let g = (f - 1) as nat;
        match stmts[i] {
            Stmt::Expr(e) => {
                lemma_eval_more_replies(file, g, e, env, io, ans, extra);
                let o = eval(file, g, e, env, io, ans);
                if let Ok(v) = o.res {
                    lemma_block_value(file, g, stmts, i + 1, env, o.io, ans, extra, v);
                }
            },
            _ => {
                lemma_exec_more_replies(file, g, stmts[i], env, io, ans, extra);
                let o = exec(file, g, stmts[i], env, io, ans);
                if o.res is Ok {
                    lemma_block_value(file, g, stmts, i + 1, o.env, o.io, ans, extra, last);
                }
            },
        }
    }
}

/// A run that did not stop to ask for a reply is the same with more replies:
/// a statement.
pub proof fn lemma_exec_more_replies(file: File, f: nat, s: Stmt, env: EnvView, io: Io, ans: Seq<ValueView>, extra: Seq<ValueView>)
    ensures
        settled(exec(file, f, s, env, io, ans).res) ==> exec(file, f, s, env, io, ans + extra) == exec(file, f, s, env, io, ans),
    decreases f, 0int,
{
    if f > 0 {
        let g = (f - 1) as nat;
        match s {
            Stmt::Let { name, value, .. } => lemma_eval_more_replies(file, g, value, env, io, ans, extra),
            Stmt::Assign { target, value } => lemma_assign(file, g, target, value, env, io, ans, extra),
            Stmt::If { condition, then_block, else_block } => lemma_if_stmt(file, g, condition, then_block, else_block, env, io, ans, extra),
            Stmt::For { var, iter, body } => lemma_for(file, g, var, iter, body, env, io, ans, extra),
            Stmt::While { condition, body } => lemma_while(file, g, condition, body, env, io, ans, extra),
            Stmt::Loop(body) => lemma_loop(file, g, body, env, io, ans, extra),
            Stmt::Match { expr, arms } => lemma_match_stmt(file, g, expr, arms@, env, io, ans, extra),
            Stmt::Send { message, target, args } => lemma_send_stmt(file, g, message, target, args@, env, io, ans, extra),
            Stmt::Expr(e) => lemma_eval_more_replies(file, g, e, env, io, ans, extra),
            _ => {},
        }
    }
}

proof fn lemma_assign(file: File, f: nat, target: Expr, value: Expr, env: EnvView, io: Io, ans: Seq<ValueView>, extra: Seq<ValueView>)
    ensures
        settled(exec_assign(file, f, target, value, env, io, ans).res) ==> exec_assign(file, f, target, value, env, io, ans + extra) == exec_assign(file, f, target, value, env, io, ans),
    decreases f, 2int,
{
    lemma_eval_more_replies(file, f, value, env, io, ans, extra);
    let o = eval(file, f, value, env, io, ans);
    if o.res is Ok {
        if let Expr::Index { expr, index } = target {
            lemma_eval_more_replies(file, f, *index, env, o.io, ans, extra);
        }
    }
}

proof fn lemma_if_stmt(file: File, f: nat, cond: Expr, then_block: Block, else_block: Option<Block>, env: EnvView, io: Io, ans: Seq<ValueView>, extra: Seq<ValueView>)
    ensures
        settled(exec_if(file, f, cond, then_block, else_block, env, io, ans).res) ==> exec_if(file, f, cond, then_block, else_block, env, io, ans + extra) == exec_if(file, f, cond, then_block, else_block, env, io, ans),
    decreases f, 2int,
{
    lemma_eval_more_replies(file, f, cond, env, io, ans, extra);
    let o = eval(file, f, cond, env, io, ans);
    if o.res is Ok {
        lemma_block_run(file, f, then_block.statements@, 0, Seq::empty(), false, env, o.io, ans, extra);
        if let Some(eb) = else_block {
            lemma_block_run(file, f, eb.statements@, 0, Seq::empty(), false, env, o.io, ans, extra);
        }
    }
}

proof fn lemma_for(file: File, f: nat, var: String, iter: Expr, body: Block, env: EnvView, io: Io, ans: Seq<ValueView>, extra: Seq<ValueView>)
    ensures
        settled(exec_for(file, f, var, iter, body, env, io, ans).res) ==> exec_for(file, f, var, iter, body, env, io, ans + extra) == exec_for(file, f, var, iter, body, env, io, ans),
    decreases f, 2int,
{
    match iter {
        Expr::Range { start, end, inclusive } => {
            lemma_eval_more_replies(file, f, *start, env, io, ans, extra);
            let o1 = eval(file, f, *start, env, io, ans);
            if o1.res is Ok {
                lemma_eval_more_replies(file, f, *end, env, o1.io, ans, extra);
                let o2 = eval(file, f, *end, env, o1.io, ans);
                if let (Ok(ValueView::Int(x)), Ok(ValueView::Int(y))) = (o1.res, o2.res) {
                    let stop = if inclusive { y.wrapping_add(1) } else { y };
                    lemma_range(file, f, var, body, x as int, stop as int, env, o2.io, ans, extra);
                }
            }
        },
        _ => {
            lemma_eval_more_replies(file, f, iter, env, io, ans, extra);
            let o1 = eval(file, f, iter, env, io, ans);
            if let Ok(ValueView::Array(items)) = o1.res {
                lemma_items(file, f, var, body, items, 0, env, o1.io, ans, extra);
            }
        },
    }
}

proof fn lemma_range(file: File, f: nat, var: String, body: Block, i: int, stop: int, env: EnvView, io: Io, ans: Seq<ValueView>, extra: Seq<ValueView>)
    ensures
        settled(range_run(file, f, var, body, i, stop, env, io, ans).res) ==> range_run(file, f, var, body, i, stop, env, io, ans + extra) == range_run(file, f, var, body, i, stop, env, io, ans),
    decreases f, 1int,
{
    if i < stop && f > 0 {
        let g = (f - 1) as nat;
        let env2 = env.insert(var@, ValueView::Int(i as i64));
        lemma_block_run(file, g, body.statements@, 0, Seq::empty(), false, env2, io, ans, extra);
        let o = block_run(file, g, body.statements@, 0, Seq::empty(), false, env2, io, ans);
        if o.res is Ok {
            lemma_range(file, g, var, body, i + 1, stop, o.env, o.io, ans, extra);
        }
    }
}

proof fn lemma_items(file: File, f: nat, var: String, body: Block, items: Seq<ValueView>, i: int, env: EnvView, io: Io, ans: Seq<ValueView>, extra: Seq<ValueView>)
    ensures
        settled(items_run(file, f, var, body, items, i, env, io, ans).res) ==> items_run(file, f, var, body, items, i, env, io, ans + extra) == items_run(file, f, var, body, items, i, env, io, ans),
    decreases f, 1int,
{
    if 0 <= i < items.len() && f > 0 {
        let g = (f - 1) as nat;
        let env2 = env.insert(var@, items[i]);
        lemma_block_run(file, g, body.statements@, 0, Seq::empty(), false, env2, io, ans, extra);
        let o = block_run(file, g, body.statements@, 0, Seq::empty(), false, env2, io, ans);
        if o.res is Ok {
            lemma_items(file, g, var, body, items, i + 1, o.env, o.io, ans, extra);
        }
    }
}

proof fn lemma_while(file: File, f: nat, cond: Expr, body: Block, env: EnvView, io: Io, ans: Seq<ValueView>, extra: Seq<ValueView>)
    ensures
        settled(while_run(file, f, cond, body, env, io, ans).res) ==> while_run(file, f, cond, body, env, io, ans + extra) == while_run(file, f, cond, body, env, io, ans),
    decreases f, 1int,
{
    if f > 0 {
        let g = (f - 1) as nat;
        lemma_eval_more_replies(file, g, cond, env, io, ans, extra);
        let c = eval(file, g, cond, env, io, ans);
        if c.res is Ok {
            lemma_block_run(file, g, body.statements@, 0, Seq::empty(), false, env, c.io, ans, extra);
            let o = block_run(file, g, body.statements@, 0, Seq::empty(), false, env, c.io, ans);
            if o.res is Ok {
                lemma_while(file, g, cond, body, o.env, o.io, ans, extra);
            }
        }
    }
}

proof fn lemma_loop(file: File, f: nat, body: Block, env: EnvView, io: Io, ans: Seq<ValueView>, extra: Seq<ValueView>)
    ensures
        settled(loop_run(file, f, body, env, io, ans).res) ==> loop_run(file, f, body, env, io, ans + extra) == loop_run(file, f, body, env, io, ans),
    decreases f, 1int,
{
    if f > 0 {
        let g = (f - 1) as nat;
        lemma_block_run(file, g, body.statements@, 0, Seq::empty(), false, env, io, ans, extra);
        let o = block_run(file, g, body.statements@, 0, Seq::empty(), false, env, io, ans);
        if o.res is Ok {
            lemma_loop(file, g, body, o.env, o.io, ans, extra);
        }
    }
}

proof fn lemma_match_stmt(file: File, f: nat, expr: Expr, arms: Seq<MatchArm>, env: EnvView, io: Io, ans: Seq<ValueView>, extra: Seq<ValueView>)
    ensures
        settled(exec_match(file, f, expr, arms, env, io, ans).res) ==> exec_match(file, f, expr, arms, env, io, ans + extra) == exec_match(file, f, expr, arms, env, io, ans),
    decreases f, 2int,
{
    lemma_eval_more_replies(file, f, expr, env, io, ans, extra);
    let o = eval(file, f, expr, env, io, ans);
    if let Ok(v) = o.res {
        lemma_arms_run(file, f, arms, 0, v, env, o.io, ans, extra);
    }
}

proof fn lemma_arms_run(file: File, f: nat, arms: Seq<MatchArm>, i: int, v: ValueView, env: EnvView, io: Io, ans: Seq<ValueView>, extra: Seq<ValueView>)
    ensures
        settled(arms_run(file, f, arms, i, v, env, io, ans).res) ==> arms_run(file, f, arms, i, v, env, io, ans + extra) == arms_run(file, f, arms, i, v, env, io, ans),
    decreases f, 1int,
{
    if 0 <= i < arms.len() && f > 0 {
        let g = (f - 1) as nat;
        match pattern_bindings(arms[i].pattern, v) {
            None => lemma_arms_run(file, g, arms, i + 1, v, env, io, ans, extra),
            Some(bs) => {
                let env2 = bind_all(env, bs);
                match arms[i].body {
                    MatchBody::Expr(e) => lemma_eval_more_replies(file, g, e, env2, io, ans, extra),
                    MatchBody::Block(b) => lemma_block_run(file, g, b.statements@, 0, Seq::empty(), false, env2, io, ans, extra),
                }
            },
        }
    }
}

proof fn lemma_send_stmt(file: File, f: nat, message: Expr, target: String, args: Seq<(String, Expr)>, env: EnvView, io: Io, ans: Seq<ValueView>, extra: Seq<ValueView>)
    ensures
        settled(exec_send(file, f, message, target, args, env, io, ans).res) ==> exec_send(file, f, message, target, args, env, io, ans + extra) == exec_send(file, f, message, target, args, env, io, ans),
    decreases f, 2int,
{
    lemma_eval_more_replies(file, f, message, env, io, ans, extra);
    let o = eval(file, f, message, env, io, ans);
    if o.res is Ok {
        lemma_named(file, f, args, 0, false, env, o.io, ans, extra, Seq::empty());
    }
}

/// A run that did not stop to ask for a reply is the same with more replies:
/// the statements of a block, with its deferred blocks.
pub proof fn lemma_block_run(
    file: File,
    f: nat,
    stmts: Seq<Stmt>,
    i: int,
    defers: Seq<usize>,
    top: bool,
    env: EnvView,
    io: Io,
    ans: Seq<ValueView>,
    extra: Seq<ValueView>,
)
    ensures
        settled(block_run(file, f, stmts, i, defers, top, env, io, ans).res) ==> block_run(file, f, stmts, i, defers, top, env, io, ans + extra) == block_run(file, f, stmts, i, defers, top, env, io, ans),
    decreases f, 1int,
{
    if i < 0 || i >= stmts.len() {
        lemma_defers_run(file, f, stmts, defers, defers.len() as int, Flow::Normal, env, io, ans, extra);
    } else if f > 0 {
        let g = (f - 1) as nat;
        match stmts[i] {
            Stmt::Defer(_) => lemma_block_run(file, g, stmts, i + 1, defers.push(i as usize), top, env, io, ans, extra),
            _ => {
                lemma_exec_more_replies(file, g, stmts[i], env, io, ans, extra);
                let o = exec(file, g, stmts[i], env, io, ans);
                if let Ok(fl) = o.res {
                    if ends_block(fl, top) {
                        lemma_defers_run(file, g, stmts, defers, defers.len() as int, fl, o.env, o.io, ans, extra);
                    } else {
                        lemma_block_run(file, g, stmts, i + 1, defers, top, o.env, o.io, ans, extra);
                    }
                }
            },
        }
    }
}

proof fn lemma_defers_run(
    file: File,
    f: nat,
    stmts: Seq<Stmt>,
    defers: Seq<usize>,
    k: int,
    flow: Flow,
    env: EnvView,
    io: Io,
    ans: Seq<ValueView>,
    extra: Seq<ValueView>,
)
    ensures
        settled(defers_run(file, f, stmts, defers, k, flow, env, io, ans).res) ==> defers_run(file, f, stmts, defers, k, flow, env, io, ans + extra) == defers_run(file, f, stmts, defers, k, flow, env, io, ans),
    decreases f, 0int,
{
    if 0 < k <= defers.len() && f > 0 {
        let g = (f - 1) as nat;
        match stmts[defers[k - 1] as int] {
            Stmt::Defer(b) => {
                lemma_block_run(file, g, b.statements@, 0, Seq::empty(), true, env, io, ans, extra);
                let o = block_run(file, g, b.statements@, 0, Seq::empty(), true, env, io, ans);
                if o.res is Ok {
                    lemma_defers_run(file, g, stmts, defers, k - 1, flow, o.env, o.io, ans, extra);
                }
            },
            _ => lemma_defers_run(file, g, stmts, defers, k - 1, flow, env, io, ans, extra),
        }
    }
}


proof fn lemma_init_state(file: File, f: nat, decls: Seq<StateDecl>, i: int, env: EnvView, io: Io, ans: Seq<ValueView>, extra: Seq<ValueView>)
    ensures
        settled(init_state(file, f, decls, i, env, io, ans).res) ==> init_state(file, f, decls, i, env, io, ans + extra) == init_state(file, f, decls, i, env, io, ans),
    decreases decls.len() - i,
{
    if 0 <= i < decls.len() {
        lemma_eval_more_replies(file, f, decls[i].value, env, io, ans, extra);
        let o = eval(file, f, decls[i].value, env, io, ans);
        if let Ok(v) = o.res {
            lemma_init_state(file, f, decls, i + 1, env.insert(decls[i].name@, v), o.io, ans, extra);
        }
    }
}

/// A start of a run that did not stop to ask for a reply is the same with
/// more replies.
pub proof fn lemma_init_agents_more_replies(
    file: File,
    f: nat,
    agents: Seq<Agent>,
    d: int,
    io: Io,
    ans: Seq<ValueView>,
    extra: Seq<ValueView>,
    acc: Seq<EnvView>,
)
    ensures
        settled(init_agents(file, f, agents, d, io, ans, acc).res) ==> init_agents(file, f, agents, d, io, ans + extra, acc) == init_agents(file, f, agents, d, io, ans, acc),
    decreases agents.len() - d,
{
    if 0 <= d < agents.len() {
        lemma_init_state(file, f, agents[d].state@, 0, Map::empty(), io, ans, extra);
        let o = init_state(file, f, agents[d].state@, 0, Map::empty(), io, ans);
        if o.res is Ok {
            lemma_init_agents_more_replies(file, f, agents, d + 1, o.io, ans, extra, acc.push(o.env));
        }
    }
}


proof fn lemma_ask_used(q: StopView, used: nat, ans: Seq<ValueView>)
    requires
        used <= ans.len(),
        asks(q),
    ensures
        ask(q, used, ans).used <= ans.len(),
        !settled(ask(q, used, ans).res) ==> ask(q, used, ans).used == ans.len(),
{
}

proof fn lemma_display_used(v: ValueView, used: nat, ans: Seq<ValueView>)
    requires
        used <= ans.len(),
    ensures
        display(v, used, ans).used <= ans.len(),
        !settled(display(v, used, ans).res) ==> display(v, used, ans).used == ans.len(),
    decreases v, 0int,
{
    match v {
        ValueView::Float(b) => lemma_ask_used(StopView::FloatText(b), used, ans),
        ValueView::Opt(Some(x)) => lemma_display_used(*x, used, ans),
        ValueView::Array(xs) => lemma_display_items_used(xs, 0, used, ans, Seq::empty()),
        ValueView::Struct(fs) => lemma_display_fields_used(fs, 0, used, ans, Seq::empty()),
        _ => {},
    }
}

proof fn lemma_display_items_used(xs: Seq<ValueView>, i: int, used: nat, ans: Seq<ValueView>, acc: Seq<char>)
    requires
        used <= ans.len(),
    ensures
        display_items(xs, i, used, ans, acc).used <= ans.len(),
        !settled(display_items(xs, i, used, ans, acc).res) ==> display_items(xs, i, used, ans, acc).used == ans.len(),
    decreases xs, xs.len() - i,
{
    if 0 <= i < xs.len() {
        lemma_display_used(xs[i], used, ans);
        let o = display(xs[i], used, ans);
        match o.res {
            Ok(s) => lemma_display_items_used(xs, i + 1, o.used, ans, if i == 0 { s } else { acc + ", "@ + s }),
            Err(_) => {},
        }
    }
}

proof fn lemma_display_fields_used(fs: Seq<(Seq<char>, ValueView)>, i: int, used: nat, ans: Seq<ValueView>, acc: Seq<char>)
    requires
        used <= ans.len(),
    ensures
        display_fields(fs, i, used, ans, acc).used <= ans.len(),
        !settled(display_fields(fs, i, used, ans, acc).res) ==> display_fields(fs, i, used, ans, acc).used == ans.len(),
    decreases fs, fs.len() - i,
{
    if 0 <= i < fs.len() {
        assert(decreases_to!(fs => fs[i]));
        lemma_display_used(fs[i].1, used, ans);
        let o = display(fs[i].1, used, ans);
        match o.res {
            Ok(s) => {
                let item = fs[i].0 + ": "@ + s;
                lemma_display_fields_used(fs, i + 1, o.used, ans, if i == 0 { item } else { acc + ", "@ + item });
            },
            Err(_) => {},
        }
    }
}

proof fn lemma_binary_used(op: BinaryOp, a: ValueView, b: ValueView, used: nat, ans: Seq<ValueView>)
    requires
        used <= ans.len(),
    ensures
        binary(op, a, b, used, ans).used <= ans.len(),
        !settled(binary(op, a, b, used, ans).res) ==> binary(op, a, b, used, ans).used == ans.len(),
{
    match (a, b) {
        (ValueView::Float(x), ValueView::Float(y)) => lemma_ask_used(StopView::FloatOp(op, x, y), used, ans),
        (ValueView::Int(x), ValueView::Int(y)) => lemma_ask_used(StopView::IntCompare(op, x, y), used, ans),
        _ => {},
    }
    lemma_display_used(a, used, ans);
    lemma_display_used(b, used, ans);
}

/// A run uses only the replies it was given, and stops to ask for one only
/// when it has used them all: an expression.
pub proof fn lemma_eval_replies_used(file: File, f: nat, e: Expr, env: EnvView, io: Io, ans: Seq<ValueView>)
    requires
        io.used <= ans.len(),
    ensures
        eval(file, f, e, env, io, ans).io.used <= ans.len(),
        !settled(eval(file, f, e, env, io, ans).res) ==> eval(file, f, e, env, io, ans).io.used == ans.len(),
    decreases f, 0int,
{
    if f > 0 {
        let g = (f - 1) as nat;
        match e {
            Expr::Binary { op, left, right } => lemma_binary_expr_used(file, g, op, *left, *right, env, io, ans),
            Expr::Unary { op, expr } => lemma_eval_replies_used(file, g, *expr, env, io, ans),
            Expr::Call { func, args } => lemma_call_used(file, g, *func, args@, env, io, ans),
            Expr::Index { expr, index } => lemma_index_used(file, g, *expr, *index, env, io, ans),
            Expr::Field { expr, field } => lemma_eval_replies_used(file, g, *expr, env, io, ans),
            Expr::Use { path, args } => lemma_use_used(file, g, path, args, env, io, ans),
            Expr::Send { message, target, args } => lemma_send_expr_used(file, g, *message, target@, args@, env, io, ans),
            Expr::If { condition, then_expr, else_expr } => lemma_if_expr_used(file, g, *condition, *then_expr, *else_expr, env, io, ans),
            Expr::Match { expr, arms } => lemma_match_expr_used(file, g, *expr, arms@, env, io, ans),
            Expr::Block(b) => lemma_block_value_used(file, g, b.statements@, 0, env, io, ans, ValueView::Unit),
            Expr::SomeOf(x) => lemma_eval_replies_used(file, g, *x, env, io, ans),
            Expr::Array(es) => lemma_list_used(file, g, es@, 0, env, io, ans, Seq::empty()),
            Expr::Struct { name, fields } => lemma_named_used(file, g, fields@, 0, false, env, io, ans, Seq::empty()),
            Expr::Copy(x) => lemma_eval_replies_used(file, g, *x, env, io, ans),
            Expr::Cast { expr, .. } => lemma_eval_replies_used(file, g, *expr, env, io, ans),
            _ => {},
        }
    }
}

proof fn lemma_binary_expr_used(file: File, f: nat, op: BinaryOp, left: Expr, right: Expr, env: EnvView, io: Io, ans: Seq<ValueView>)
    requires
        io.used <= ans.len(),
    ensures
        eval_binary_expr(file, f, op, left, right, env, io, ans).io.used <= ans.len(),
        !settled(eval_binary_expr(file, f, op, left, right, env, io, ans).res) ==> eval_binary_expr(file, f, op, left, right, env, io, ans).io.used == ans.len(),
    decreases f, 2int,
{
    lemma_eval_replies_used(file, f, left, env, io, ans);
    let o1 = eval(file, f, left, env, io, ans);
    if let Ok(a) = o1.res {
        lemma_eval_replies_used(file, f, right, env, o1.io, ans);
        let o2 = eval(file, f, right, env, o1.io, ans);
        if let Ok(b) = o2.res {
            lemma_binary_used(op, a, b, o2.io.used, ans);
        }
    }
}

proof fn lemma_call_used(file: File, f: nat, func: Expr, args: Seq<Expr>, env: EnvView, io: Io, ans: Seq<ValueView>)
    requires
        io.used <= ans.len(),
    ensures
        eval_call(file, f, func, args, env, io, ans).io.used <= ans.len(),
        !settled(eval_call(file, f, func, args, env, io, ans).res) ==> eval_call(file, f, func, args, env, io, ans).io.used == ans.len(),
    decreases f, 2int,
{
    if args.len() == 1 {
        lemma_eval_replies_used(file, f, args[0], env, io, ans);
    }
}

proof fn lemma_index_used(file: File, f: nat, expr: Expr, index: Expr, env: EnvView, io: Io, ans: Seq<ValueView>)
    requires
        io.used <= ans.len(),
    ensures
        eval_index(file, f, expr, index, env, io, ans).io.used <= ans.len(),
        !settled(eval_index(file, f, expr, index, env, io, ans).res) ==> eval_index(file, f, expr, index, env, io, ans).io.used == ans.len(),
    decreases f, 2int,
{
    lemma_eval_replies_used(file, f, expr, env, io, ans);
    let o1 = eval(file, f, expr, env, io, ans);
    if o1.res is Ok {
        lemma_eval_replies_used(file, f, index, env, o1.io, ans);
    }
}

proof fn lemma_use_used(file: File, f: nat, path: Vec<String>, args: Vec<(String, Expr)>, env: EnvView, io: Io, ans: Seq<ValueView>)
    requires
        io.used <= ans.len(),
    ensures
        eval_use(file, f, path, args, env, io, ans).io.used <= ans.len(),
        !settled(eval_use(file, f, path, args, env, io, ans).res) ==> eval_use(file, f, path, args, env, io, ans).io.used == ans.len(),
    decreases f, 2int,
{
    if let Ok(sig) = use_target(file, path@, args@) {
        lemma_named_used(file, f, args@, 0, true, env, io, ans, Seq::empty());
        let o = eval_named(file, f, args@, 0, true, env, io, ans, Seq::empty());
        if let Ok(fs) = o.res {
            lemma_ask_used(StopView::Kernel(sig, fs), o.io.used, ans);
        }
    }
}

proof fn lemma_send_expr_used(file: File, f: nat, message: Expr, target: Seq<String>, args: Seq<(String, Expr)>, env: EnvView, io: Io, ans: Seq<ValueView>)
    requires
        io.used <= ans.len(),
    ensures
        eval_send(file, f, message, target, args, env, io, ans).io.used <= ans.len(),
        !settled(eval_send(file, f, message, target, args, env, io, ans).res) ==> eval_send(file, f, message, target, args, env, io, ans).io.used == ans.len(),
    decreases f, 2int,
{
    lemma_eval_replies_used(file, f, message, env, io, ans);
    let o = eval(file, f, message, env, io, ans);
    if o.res is Ok {
        lemma_named_used(file, f, args, 0, false, env, o.io, ans, Seq::empty());
    }
}

proof fn lemma_if_expr_used(file: File, f: nat, cond: Expr, then_expr: Expr, else_expr: Expr, env: EnvView, io: Io, ans: Seq<ValueView>)
    requires
        io.used <= ans.len(),
    ensures
        eval_if(file, f, cond, then_expr, else_expr, env, io, ans).io.used <= ans.len(),
        !settled(eval_if(file, f, cond, then_expr, else_expr, env, io, ans).res) ==> eval_if(file, f, cond, then_expr, else_expr, env, io, ans).io.used == ans.len(),
    decreases f, 2int,
{
    lemma_eval_replies_used(file, f, cond, env, io, ans);
    let o = eval(file, f, cond, env, io, ans);
    if o.res is Ok {
        lemma_eval_replies_used(file, f, then_expr, env, o.io, ans);
        lemma_eval_replies_used(file, f, else_expr, env, o.io, ans);
    }
}

proof fn lemma_match_expr_used(file: File, f: nat, expr: Expr, arms: Seq<MatchArm>, env: EnvView, io: Io, ans: Seq<ValueView>)
    requires
        io.used <= ans.len(),
    ensures
        eval_match(file, f, expr, arms, env, io, ans).io.used <= ans.len(),
        !settled(eval_match(file, f, expr, arms, env, io, ans).res) ==> eval_match(file, f, expr, arms, env, io, ans).io.used == ans.len(),
    decreases f, 2int,
{
    lemma_eval_replies_used(file, f, expr, env, io, ans);
    let o = eval(file, f, expr, env, io, ans);
    if let Ok(v) = o.res {
        lemma_arms_value_used(file, f, arms, 0, v, env, o.io, ans);
    }
}

proof fn lemma_list_used(file: File, f: nat, es: Seq<Expr>, i: int, env: EnvView, io: Io, ans: Seq<ValueView>, acc: Seq<ValueView>)
    requires
        io.used <= ans.len(),
    ensures
        eval_list(file, f, es, i, env, io, ans, acc).io.used <= ans.len(),
        !settled(eval_list(file, f, es, i, env, io, ans, acc).res) ==> eval_list(file, f, es, i, env, io, ans, acc).io.used == ans.len(),
    decreases f, 1int,
{
    if 0 <= i < es.len() && f > 0 {
        let g = (f - 1) as nat;
        lemma_eval_replies_used(file, g, es[i], env, io, ans);
        let o = eval(file, g, es[i], env, io, ans);
        if let Ok(v) = o.res {
            lemma_list_used(file, g, es, i + 1, env, o.io, ans, acc.push(v));
        }
    }
}

proof fn lemma_named_used(file: File, f: nat, args: Seq<(String, Expr)>, i: int, keep_all: bool, env: EnvView, io: Io, ans: Seq<ValueView>, acc: Seq<(Seq<char>, ValueView)>)
    requires
        io.used <= ans.len(),
    ensures
        eval_named(file, f, args, i, keep_all, env, io, ans, acc).io.used <= ans.len(),
        !settled(eval_named(file, f, args, i, keep_all, env, io, ans, acc).res) ==> eval_named(file, f, args, i, keep_all, env, io, ans, acc).io.used == ans.len(),
    decreases f, 1int,
{
    if 0 <= i < args.len() && f > 0 {
        let g = (f - 1) as nat;
        lemma_eval_replies_used(file, g, args[i].1, env, io, ans);
        let o = eval(file, g, args[i].1, env, io, ans);
        if let Ok(v) = o.res {
            lemma_named_used(file, g, args, i + 1, keep_all, env, o.io, ans, named_step(acc, args[i].0@, v, keep_all));
        }
    }
}

proof fn lemma_arms_value_used(file: File, f: nat, arms: Seq<MatchArm>, i: int, v: ValueView, env: EnvView, io: Io, ans: Seq<ValueView>)
    requires
        io.used <= ans.len(),
    ensures
        arms_value(file, f, arms, i, v, env, io, ans).io.used <= ans.len(),
        !settled(arms_value(file, f, arms, i, v, env, io, ans).res) ==> arms_value(file, f, arms, i, v, env, io, ans).io.used == ans.len(),
    decreases f, 1int,
{
    if 0 <= i < arms.len() && f > 0 {
        let g = (f - 1) as nat;
        match pattern_bindings(arms[i].pattern, v) {
            None => lemma_arms_value_used(file, g, arms, i + 1, v, env, io, ans),
            Some(bs) => {
                let env2 = bind_all(env, bs);
                match arms[i].body {
                    MatchBody::Expr(e) => lemma_eval_replies_used(file, g, e, env2, io, ans),
                    MatchBody::Block(b) => lemma_block_run_used(file, g, b.statements@, 0, Seq::empty(), true, env2, io, ans),
                }
            },
        }
    }
}

proof fn lemma_block_value_used(file: File, f: nat, stmts: Seq<Stmt>, i: int, env: EnvView, io: Io, ans: Seq<ValueView>, last: ValueView)
    requires
        io.used <= ans.len(),
    ensures
        block_value(file, f, stmts, i, env, io, ans, last).io.used <= ans.len(),
        !settled(block_value(file, f, stmts, i, env, io, ans, last).res) ==> block_value(file, f, stmts, i, env, io, ans, last).io.used == ans.len(),
    decreases f, 1int,
{
    if 0 <= i < stmts.len() && f > 0 {
        let g = (f - 1) as nat;
        match stmts[i] {
            Stmt::Expr(e) => {
                lemma_eval_replies_used(file, g, e, env, io, ans);
                let o = eval(file, g, e, env, io, ans);
                if let Ok(v) = o.res {
                    lemma_block_value_used(file, g, stmts, i + 1, env, o.io, ans, v);
                }
            },
            _ => {
                lemma_exec_replies_used(file, g, stmts[i], env, io, ans);
                let o = exec(file, g, stmts[i], env, io, ans);
                if o.res is Ok {
                    lemma_block_value_used(file, g, stmts, i + 1, o.env, o.io, ans, last);
                }
            },
        }
    }
}

/// A run uses only the replies it was given, and stops to ask for one only
/// when it has used them all: a statement.
pub proof fn lemma_exec_replies_used(file: File, f: nat, s: Stmt, env: EnvView, io: Io, ans: Seq<ValueView>)
    requires
        io.used <= ans.len(),
    ensures
        exec(file, f, s, env, io, ans).io.used <= ans.len(),
        !settled(exec(file, f, s, env, io, ans).res) ==> exec(file, f, s, env, io, ans).io.used == ans.len(),
    decreases f, 0int,
{
    if f > 0 {
        let g = (f - 1) as nat;
        match s {
            Stmt::Let { name, value, .. } => lemma_eval_replies_used(file, g, value, env, io, ans),
            Stmt::Assign { target, value } => lemma_assign_used(file, g, target, value, env, io, ans),
            Stmt::If { condition, then_block, else_block } => lemma_if_stmt_used(file, g, condition, then_block, else_block, env, io, ans),
            Stmt::For { var, iter, body } => lemma_for_used(file, g, var, iter, body, env, io, ans),
            Stmt::While { condition, body } => lemma_while_used(file, g, condition, body, env, io, ans),
            Stmt::Loop(body) => lemma_loop_used(file, g, body, env, io, ans),
            Stmt::Match { expr, arms } => lemma_match_stmt_used(file, g, expr, arms@, env, io, ans),
            Stmt::Send { message, target, args } => lemma_send_stmt_used(file, g, message, target, args@, env, io, ans),
            Stmt::Expr(e) => lemma_eval_replies_used(file, g, e, env, io, ans),
            _ => {},
        }
    }
}

proof fn lemma_assign_used(file: File, f: nat, target: Expr, value: Expr, env: EnvView, io: Io, ans: Seq<ValueView>)
    requires
        io.used <= ans.len(),
    ensures
        exec_assign(file, f, target, value, env, io, ans).io.used <= ans.len(),
        !settled(exec_assign(file, f, target, value, env, io, ans).res) ==> exec_assign(file, f, target, value, env, io, ans).io.used == ans.len(),
    decreases f, 2int,
{
    lemma_eval_replies_used(file, f, value, env, io, ans);
    let o = eval(file, f, value, env, io, ans);
    if o.res is Ok {
        if let Expr::Index { expr, index } = target {
            lemma_eval_replies_used(file, f, *index, env, o.io, ans);
        }
    }
}

proof fn lemma_if_stmt_used(file: File, f: nat, cond: Expr, then_block: Block, else_block: Option<Block>, env: EnvView, io: Io, ans: Seq<ValueView>)
    requires
        io.used <= ans.len(),
    ensures
        exec_if(file, f, cond, then_block, else_block, env, io, ans).io.used <= ans.len(),
        !settled(exec_if(file, f, cond, then_block, else_block, env, io, ans).res) ==> exec_if(file, f, cond, then_block, else_block, env, io, ans).io.used == ans.len(),
    decreases f, 2int,
{
    lemma_eval_replies_used(file, f, cond, env, io, ans);
    let o = eval(file, f, cond, env, io, ans);
    if o.res is Ok {
        lemma_block_run_used(file, f, then_block.statements@, 0, Seq::empty(), false, env, o.io, ans);
        if let Some(eb) = else_block {
            lemma_block_run_used(file, f, eb.statements@, 0, Seq::empty(), false, env, o.io, ans);
        }
    }
}

proof fn lemma_for_used(file: File, f: nat, var: String, iter: Expr, body: Block, env: EnvView, io: Io, ans: Seq<ValueView>)
    requires
        io.used <= ans.len(),
    ensures
        exec_for(file, f, var, iter, body, env, io, ans).io.used <= ans.len(),
        !settled(exec_for(file, f, var, iter, body, env, io, ans).res) ==> exec_for(file, f, var, iter, body, env, io, ans).io.used == ans.len(),
    decreases f, 2int,
{
    match iter {
        Expr::Range { start, end, inclusive } => {
            lemma_eval_replies_used(file, f, *start, env, io, ans);
            let o1 = eval(file, f, *start, env, io, ans);
            if o1.res is Ok {
                lemma_eval_replies_used(file, f, *end, env, o1.io, ans);
                let o2 = eval(file, f, *end, env, o1.io, ans);
                if let (Ok(ValueView::Int(x)), Ok(ValueView::Int(y))) = (o1.res, o2.res) {
                    let stop = if inclusive { y.wrapping_add(1) } else { y };
                    lemma_range_used(file, f, var, body, x as int, stop as int, env, o2.io, ans);
                }
            }
        },
        _ => {
            lemma_eval_replies_used(file, f, iter, env, io, ans);
            let o1 = eval(file, f, iter, env, io, ans);
            if let Ok(ValueView::Array(items)) = o1.res {
                lemma_items_used(file, f, var, body, items, 0, env, o1.io, ans);
            }
        },
    }
}

proof fn lemma_range_used(file: File, f: nat, var: String, body: Block, i: int, stop: int, env: EnvView, io: Io, ans: Seq<ValueView>)
    requires
        io.used <= ans.len(),
    ensures
        range_run(file, f, var, body, i, stop, env, io, ans).io.used <= ans.len(),
        !settled(range_run(file, f, var, body, i, stop, env, io, ans).res) ==> range_run(file, f, var, body, i, stop, env, io, ans).io.used == ans.len(),
    decreases f, 1int,
{
    if i < stop && f > 0 {
        let g = (f - 1) as nat;
        let env2 = env.insert(var@, ValueView::Int(i as i64));
        lemma_block_run_used(file, g, body.statements@, 0, Seq::empty(), false, env2, io, ans);
        let o = block_run(file, g, body.statements@, 0, Seq::empty(), false, env2, io, ans);
        if o.res is Ok {
            lemma_range_used(file, g, var, body, i + 1, stop, o.env, o.io, ans);
        }
    }
}

proof fn lemma_items_used(file: File, f: nat, var: String, body: Block, items: Seq<ValueView>, i: int, env: EnvView, io: Io, ans: Seq<ValueView>)
    requires
        io.used <= ans.len(),
    ensures
        items_run(file, f, var, body, items, i, env, io, ans).io.used <= ans.len(),
        !settled(items_run(file, f, var, body, items, i, env, io, ans).res) ==> items_run(file, f, var, body, items, i, env, io, ans).io.used == ans.len(),
    decreases f, 1int,
{
    if 0 <= i < items.len() && f > 0 {
        let g = (f - 1) as nat;
        let env2 = env.insert(var@, items[i]);
        lemma_block_run_used(file, g, body.statements@, 0, Seq::empty(), false, env2, io, ans);
        let o = block_run(file, g, body.statements@, 0, Seq::empty(), false, env2, io, ans);
        if o.res is Ok {
            lemma_items_used(file, g, var, body, items, i + 1, o.env, o.io, ans);
        }
    }
}

proof fn lemma_while_used(file: File, f: nat, cond: Expr, body: Block, env: EnvView, io: Io, ans: Seq<ValueView>)
    requires
        io.used <= ans.len(),
    ensures
        while_run(file, f, cond, body, env, io, ans).io.used <= ans.len(),
        !settled(while_run(file, f, cond, body, env, io, ans).res) ==> while_run(file, f, cond, body, env, io, ans).io.used == ans.len(),
    decreases f, 1int,
{
    if f > 0 {
        let g = (f - 1) as nat;
        lemma_eval_replies_used(file, g, cond, env, io, ans);
        let c = eval(file, g, cond, env, io, ans);
        if c.res is Ok {
            lemma_block_run_used(file, g, body.statements@, 0, Seq::empty(), false, env, c.io, ans);
            let o = block_run(file, g, body.statements@, 0, Seq::empty(), false, env, c.io, ans);
            if o.res is Ok {
                lemma_while_used(file, g, cond, body, o.env, o.io, ans);
            }
        }
    }
}

proof fn lemma_loop_used(file: File, f: nat, body: Block, env: EnvView, io: Io, ans: Seq<ValueView>)
    requires
        io.used <= ans.len(),
    ensures
        loop_run(file, f, body, env, io, ans).io.used <= ans.len(),
        !settled(loop_run(file, f, body, env, io, ans).res) ==> loop_run(file, f, body, env, io, ans).io.used == ans.len(),
    decreases f, 1int,
{
    if f > 0 {
        let g = (f - 1) as nat;
        lemma_block_run_used(file, g, body.statements@, 0, Seq::empty(), false, env, io, ans);
        let o = block_run(file, g, body.statements@, 0, Seq::empty(), false, env, io, ans);
        if o.res is Ok {
            lemma_loop_used(file, g, body, o.env, o.io, ans);
        }
    }
}

proof fn lemma_match_stmt_used(file: File, f: nat, expr: Expr, arms: Seq<MatchArm>, env: EnvView, io: Io, ans: Seq<ValueView>)
    requires
        io.used <= ans.len(),
    ensures
        exec_match(file, f, expr, arms, env, io, ans).io.used <= ans.len(),
        !settled(exec_match(file, f, expr, arms, env, io, ans).res) ==> exec_match(file, f, expr, arms, env, io, ans).io.used == ans.len(),
    decreases f, 2int,
{
    lemma_eval_replies_used(file, f, expr, env, io, ans);
    let o = eval(file, f, expr, env, io, ans);
    if let Ok(v) = o.res {
        lemma_arms_run_used(file, f, arms, 0, v, env, o.io, ans);
    }
}

proof fn lemma_arms_run_used(file: File, f: nat, arms: Seq<MatchArm>, i: int, v: ValueView, env: EnvView, io: Io, ans: Seq<ValueView>)
    requires
        io.used <= ans.len(),
    ensures
        arms_run(file, f, arms, i, v, env, io, ans).io.used <= ans.len(),
        !settled(arms_run(file, f, arms, i, v, env, io, ans).res) ==> arms_run(file, f, arms, i, v, env, io, ans).io.used == ans.len(),
    decreases f, 1int,
{
    if 0 <= i < arms.len() && f > 0 {
        let g = (f - 1) as nat;
        match pattern_bindings(arms[i].pattern, v) {
            None => lemma_arms_run_used(file, g, arms, i + 1, v, env, io, ans),
            Some(bs) => {
                let env2 = bind_all(env, bs);
                match arms[i].body {
                    MatchBody::Expr(e) => lemma_eval_replies_used(file, g, e, env2, io, ans),
                    MatchBody::Block(b) => lemma_block_run_used(file, g, b.statements@, 0, Seq::empty(), false, env2, io, ans),
                }
            },
        }
    }
}

proof fn lemma_send_stmt_used(file: File, f: nat, message: Expr, target: String, args: Seq<(String, Expr)>, env: EnvView, io: Io, ans: Seq<ValueView>)
    requires
        io.used <= ans.len(),
    ensures
        exec_send(file, f, message, target, args, env, io, ans).io.used <= ans.len(),
        !settled(exec_send(file, f, message, target, args, env, io, ans).res) ==> exec_send(file, f, message, target, args, env, io, ans).io.used == ans.len(),
    decreases f, 2int,
{
    lemma_eval_replies_used(file, f, message, env, io, ans);
    let o = eval(file, f, message, env, io, ans);
    if o.res is Ok {
        lemma_named_used(file, f, args, 0, false, env, o.io, ans, Seq::empty());
    }
}

/// A run uses only the replies it was given, and stops to ask for one only
/// when it has used them all: the statements of a block.
pub proof fn lemma_block_run_used(
    file: File,
    f: nat,
    stmts: Seq<Stmt>,
    i: int,
    defers: Seq<usize>,
    top: bool,
    env: EnvView,
    io: Io,
    ans: Seq<ValueView>,
)
    requires
        io.used <= ans.len(),
    ensures
        block_run(file, f, stmts, i, defers, top, env, io, ans).io.used <= ans.len(),
        !settled(block_run(file, f, stmts, i, defers, top, env, io, ans).res) ==> block_run(file, f, stmts, i, defers, top, env, io, ans).io.used == ans.len(),
    decreases f, 1int,
{
    if i < 0 || i >= stmts.len() {
        lemma_defers_run_used(file, f, stmts, defers, defers.len() as int, Flow::Normal, env, io, ans);
    } else if f > 0 {
        let g = (f - 1) as nat;
        match stmts[i] {
            Stmt::Defer(_) => lemma_block_run_used(file, g, stmts, i + 1, defers.push(i as usize), top, env, io, ans),
            _ => {
                lemma_exec_replies_used(file, g, stmts[i], env, io, ans);
                let o = exec(file, g, stmts[i], env, io, ans);
                if let Ok(fl) = o.res {
                    if ends_block(fl, top) {
                        lemma_defers_run_used(file, g, stmts, defers, defers.len() as int, fl, o.env, o.io, ans);
                    } else {
                        lemma_block_run_used(file, g, stmts, i + 1, defers, top, o.env, o.io, ans);
                    }
                }
            },
        }
    }
}

proof fn lemma_defers_run_used(
    file: File,
    f: nat,
    stmts: Seq<Stmt>,
    defers: Seq<usize>,
    k: int,
    flow: Flow,
    env: EnvView,
    io: Io,
    ans: Seq<ValueView>,
)
    requires
        io.used <= ans.len(),
    ensures
        defers_run(file, f, stmts, defers, k, flow, env, io, ans).io.used <= ans.len(),
        !settled(defers_run(file, f, stmts, defers, k, flow, env, io, ans).res) ==> defers_run(file, f, stmts, defers, k, flow, env, io, ans).io.used == ans.len(),
    decreases f, 0int,
{
    if 0 < k <= defers.len() && f > 0 {
        let g = (f - 1) as nat;
        match stmts[defers[k - 1] as int] {
            Stmt::Defer(b) => {
                lemma_block_run_used(file, g, b.statements@, 0, Seq::empty(), true, env, io, ans);
                let o = block_run(file, g, b.statements@, 0, Seq::empty(), true, env, io, ans);
                if o.res is Ok {
                    lemma_defers_run_used(file, g, stmts, defers, k - 1, flow, o.env, o.io, ans);
                }
            },
            _ => lemma_defers_run_used(file, g, stmts, defers, k - 1, flow, env, io, ans),
        }
    }
}

proof fn lemma_init_state_used(file: File, f: nat, decls: Seq<StateDecl>, i: int, env: EnvView, io: Io, ans: Seq<ValueView>)
    requires
        io.used <= ans.len(),
    ensures
        init_state(file, f, decls, i, env, io, ans).io.used <= ans.len(),
        !settled(init_state(file, f, decls, i, env, io, ans).res) ==> init_state(file, f, decls, i, env, io, ans).io.used == ans.len(),
    decreases decls.len() - i,
{
    if 0 <= i < decls.len() {
        lemma_eval_replies_used(file, f, decls[i].value, env, io, ans);
        let o = eval(file, f, decls[i].value, env, io, ans);
        if let Ok(v) = o.res {
            lemma_init_state_used(file, f, decls, i + 1, env.insert(decls[i].name@, v), o.io, ans);
        }
    }
}

/// A start of a run uses only the replies it was given, and stops to ask
/// for one only when it has used them all.
pub proof fn lemma_init_agents_replies_used(
    file: File,
    f: nat,
    agents: Seq<Agent>,
    d: int,
    io: Io,
    ans: Seq<ValueView>,
    acc: Seq<EnvView>,
)
    requires
        io.used <= ans.len(),
    ensures
        init_agents(file, f, agents, d, io, ans, acc).io.used <= ans.len(),
        !settled(init_agents(file, f, agents, d, io, ans, acc).res) ==> init_agents(file, f, agents, d, io, ans, acc).io.used == ans.len(),
    decreases agents.len() - d,
{
    if 0 <= d < agents.len() {
        lemma_init_state_used(file, f, agents[d].state@, 0, Map::empty(), io, ans);
        let o = init_state(file, f, agents[d].state@, 0, Map::empty(), io, ans);
        if o.res is Ok {
            lemma_init_agents_replies_used(file, f, agents, d + 1, o.io, ans, acc.push(o.env));
        }
    }
}

} // verus!
