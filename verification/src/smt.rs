//! Contract verification with an SMT solver.
//!
//! The solver itself is not part of this build: `smt_available` says so and
//! `verify_file_smt` answers with one error that tells how to enable it.
//! What does not need the solver is here: the places an item reads and
//! writes, and the short rendering of an expression used in reports.
//!
//! Floating-point values of counterexamples are carried as IEEE-754
//! binary64 bit patterns.
use vstd::prelude::*;
use crate::ast::{
    group_ast_views, lemma_stmts_view, BinaryOp, Block, Expr, File, Literal, SpecBlock, SpecExpr,
    SpecStmt, Stmt, exprs_view, stmts_view,
};
use crate::diagnostic::{opt_text, VerifyError};
use crate::text::{push_char, push_chars, push_str, signed_decimal, signed_decimal_exec, str_eq};

verus! {

broadcast use group_ast_views;

/// Value types in counterexamples.
#[derive(Debug, Clone, Copy, PartialEq, Eq, Structural)]
pub enum CounterexampleValue {
    Int(i64),
    /// IEEE-754 binary64 bit pattern.
    Float(u64),
    Bool(bool),
}

/// A counterexample showing variable assignments that violate the postcondition.
#[derive(Debug)]
pub struct Counterexample {
    /// Variable name -> value mappings, ordered by name.
    pub assignments: Vec<(String, CounterexampleValue)>,
    /// Human-readable summary
    pub summary: String,
}

/// Result of SMT verification for a single postcondition.
#[derive(Debug)]
pub enum SmtResult {
    /// Postcondition is mathematically proven to hold.
    Verified,
    /// Postcondition can be violated; includes counterexample.
    Counterexample(Counterexample),
    /// The solver could not determine satisfiability (timeout/resource limit).
    Unknown(String),
    /// SMT verification is not available (feature disabled).
    Unavailable,
}

/// The duration of a number of whole seconds.
pub uninterp spec fn secs_duration(secs: u64) -> std::time::Duration;

/// `Duration::from_secs` of std: a function of the number of seconds alone.
#[verifier::external_body]
fn duration_from_secs(secs: u64) -> (r: std::time::Duration)
    ensures
        r == secs_duration(secs),
{
    std::time::Duration::from_secs(secs)
}

/// Configuration for SMT verification.
#[derive(Debug)]
pub struct SmtConfig {
    /// Timeout for the solver (default: 5 seconds)
    pub timeout: std::time::Duration,
    /// Use bitvector arithmetic instead of mathematical integers
    pub use_bitvectors: bool,
}

impl Default for SmtConfig {
    fn default() -> (r: Self)
        ensures
            r.timeout == secs_duration(5),
            !r.use_bitvectors,
    {
        SmtConfig { timeout: duration_from_secs(5), use_bitvectors: false }
    }
}

/// Check if SMT verification is available (it is not in this build).
pub fn smt_available() -> (r: bool)
    ensures
        !r,
{
    false
}

/// The one error that a build without the solver reports.
pub open spec fn unavailable_message() -> Seq<char> {
    "SMT verification not available: compile with --features smt"@
}

/// Verify all contracts in a file with the SMT solver. Without the solver,
/// the answer is one error that says how to enable it.
pub fn verify_file_smt(file: &File, config: &SmtConfig, verbose: bool) -> (r: Result<
    Vec<VerifyError>,
    String,
>)
    ensures
        r matches Ok(errors) && errors@.len() == 1 && errors@[0].message@ == unavailable_message()
            && errors@[0].location@ == "compiler"@,
{
    let mut errors: Vec<VerifyError> = Vec::new();
    errors.push(
        VerifyError {
            message: "SMT verification not available: compile with --features smt".to_owned(),
            location: "compiler".to_owned(),
        },
    );
    Ok(errors)
}

// ---------------------------------------------------------------------------
// Places
// ---------------------------------------------------------------------------
/// The place an expression names: a variable, or a field path on one
/// (`account.balance`).
pub open spec fn place_of(e: SpecExpr) -> Option<Seq<char>>
    decreases e,
{
    match e {
        SpecExpr::Ident(name) => Some(name@),
        SpecExpr::Field { expr, field } => match place_of(*expr) {
            Some(base) => Some(base + seq!['.'] + field@),
            None => None,
        },
        _ => None,
    }
}

/// The place an expression names, if it names one.
pub fn place_key(expr: &Expr) -> (r: Option<String>)
    ensures
        opt_text(r) == place_of(expr@),
    decreases expr,
{
    match expr {
        Expr::Ident(name) => Some(name.clone()),
        Expr::Field { expr: inner, field } => match place_key(inner) {
            Some(base) => {
                let mut key = base;
                push_char(&mut key, '.');
                push_str(&mut key, field.as_str());
                Some(key)
            },
            None => None,
        },
        _ => None,
    }
}

/// The place of a field of the place that `e` names.
pub open spec fn field_place(e: SpecExpr, field: String) -> Option<Seq<char>> {
    match place_of(e) {
        Some(base) => Some(base + seq!['.'] + field@),
        None => None,
    }
}

/// The set of the texts of a list.
pub open spec fn text_set(v: Seq<String>) -> Set<Seq<char>> {
    Set::new(|x: Seq<char>| exists|i: int| 0 <= i < v.len() && v[i]@ == x)
}

/// No text occurs twice in the list.
pub open spec fn distinct_texts(v: Seq<String>) -> bool {
    forall|i: int, j: int| 0 <= i < j < v.len() ==> v[i]@ != v[j]@
}

pub open spec fn opt_set(o: Option<Seq<char>>) -> Set<Seq<char>> {
    match o {
        Some(x) => set![x],
        None => Set::empty(),
    }
}

/// The places an expression reads.
pub open spec fn places_in_expr(e: SpecExpr) -> Set<Seq<char>>
    decreases e, 1int,
{
    match e {
        SpecExpr::Ident(name) => set![name@],
        SpecExpr::Field { expr, field } => opt_set(field_place(*expr, field)) + places_in_expr(*expr),
        SpecExpr::Binary { left, right, .. } => places_in_expr(*left) + places_in_expr(*right),
        SpecExpr::Unary { expr, .. } => places_in_expr(*expr),
        SpecExpr::Call { func, args } => places_in_expr(*func) + places_in_exprs(args, 0),
        SpecExpr::If { condition, then_expr, else_expr } => places_in_expr(*condition)
            + places_in_expr(*then_expr) + places_in_expr(*else_expr),
        _ => Set::empty(),
    }
}

/// The places that the expressions from index `i` on read.
pub open spec fn places_in_exprs(s: Seq<SpecExpr>, i: int) -> Set<Seq<char>>
    decreases s, s.len() - i,
{
    if i < 0 || i >= s.len() {
        Set::empty()
    } else {
        places_in_expr(s[i]) + places_in_exprs(s, i + 1)
    }
}

/// The places a statement binds, assigns and reads.
pub open spec fn places_in_stmt(s: SpecStmt) -> Set<Seq<char>>
    decreases s, 1int,
{
    match s {
        SpecStmt::Let { name, value, .. } => set![name@] + places_in_expr(value),
        SpecStmt::Assign { target, value } => opt_set(place_of(target)) + places_in_expr(target)
            + places_in_expr(value),
        SpecStmt::Return(Some(e)) => places_in_expr(e),
        SpecStmt::Expr(e) => places_in_expr(e),
        SpecStmt::If { condition, then_block, else_block } => places_in_expr(condition)
            + places_in_block(then_block) + places_in_opt_block(else_block),
        SpecStmt::Defer(b) => places_in_block(b),
        _ => Set::empty(),
    }
}

/// The places that the statements from index `i` on touch.
pub open spec fn places_in_stmts(s: Seq<SpecStmt>, i: int) -> Set<Seq<char>>
    decreases s, s.len() - i,
{
    if i < 0 || i >= s.len() {
        Set::empty()
    } else {
        places_in_stmt(s[i]) + places_in_stmts(s, i + 1)
    }
}

pub open spec fn places_in_opt_block(b: Option<SpecBlock>) -> Set<Seq<char>>
    decreases b, 3int,
{
    match b {
        Some(blk) => places_in_block(blk),
        None => Set::empty(),
    }
}

pub open spec fn places_in_block(b: SpecBlock) -> Set<Seq<char>>
    decreases b, 2int,
{
    places_in_stmts(b.statements, 0)
}

/// Adds a text to a list of distinct texts, unless it is there already.
fn insert_text(out: &mut Vec<String>, s: String)
    requires
        distinct_texts(old(out)@),
    ensures
        distinct_texts(final(out)@),
        text_set(final(out)@) == text_set(old(out)@).insert(s@),
{
    let n = out.len();
    for i in 0..n
        invariant
            n == out@.len(),
            out@ == old(out)@,
            distinct_texts(out@),
            forall|j: int| 0 <= j < i ==> out@[j]@ != s@,
    {
        if str_eq(out[i].as_str(), s.as_str()) {
            assert(text_set(out@) =~= text_set(out@).insert(s@));
            return;
        }
    }
    let ghost before = out@;
    out.push(s);
    assert forall|x: Seq<char>| text_set(out@).contains(x) <==> text_set(before).insert(s@).contains(x) by {
        if text_set(before).contains(x) {
            let i = choose|i: int| 0 <= i < before.len() && before[i]@ == x;
            assert(out@[i]@ == x);
        }
        if x == s@ {
            assert(out@[n as int]@ == x);
        }
        if text_set(out@).contains(x) {
            let i = choose|i: int| 0 <= i < out@.len() && out@[i]@ == x;
            if i < n {
                assert(before[i]@ == x);
            }
        }
    }
    assert(text_set(out@) =~= text_set(before).insert(s@));
}

/// Adds the places an expression reads.
pub fn collect_places_in_expr(expr: &Expr, out: &mut Vec<String>)
    requires
        distinct_texts(old(out)@),
    ensures
        distinct_texts(final(out)@),
        text_set(final(out)@) == text_set(old(out)@) + places_in_expr(expr@),
    decreases expr, 1int,
{
    let ghost start = text_set(out@);
    match expr {
        Expr::Ident(name) => {
            insert_text(out, name.clone());
            assert(text_set(out@) =~= start + places_in_expr(expr@));
        },
        Expr::Field { expr: inner, field } => {
            match place_key(inner) {
                Some(base) => {
                    let mut key = base;
                    push_char(&mut key, '.');
                    push_str(&mut key, field.as_str());
                    assert(field_place(inner@, *field) == Some(key@));
                    insert_text(out, key);
                    assert(text_set(out@) =~= start + opt_set(field_place(inner@, *field)));
                },
                None => {
                    assert(text_set(out@) =~= start + opt_set(field_place(inner@, *field)));
                },
            }
            collect_places_in_expr(inner, out);
            assert(text_set(out@) =~= start + places_in_expr(expr@));
        },
        Expr::Binary { left, right, .. } => {
            collect_places_in_expr(left, out);
            collect_places_in_expr(right, out);
            assert(text_set(out@) =~= start + places_in_expr(expr@));
        },
        Expr::Unary { expr: inner, .. } => {
            collect_places_in_expr(inner, out);
        },
        Expr::Call { func, args } => {
            collect_places_in_expr(func, out);
            collect_places_in_exprs(args, out);
            assert(text_set(out@) =~= start + places_in_expr(expr@));
        },
        Expr::If { condition, then_expr, else_expr } => {
            collect_places_in_expr(condition, out);
            collect_places_in_expr(then_expr, out);
            collect_places_in_expr(else_expr, out);
            assert(text_set(out@) =~= start + places_in_expr(expr@));
        },
        _ => {
            assert(places_in_expr(expr@) =~= Set::<Seq<char>>::empty());
            assert(text_set(out@) =~= start + places_in_expr(expr@));
        },
    }
}

fn collect_places_in_exprs(v: &Vec<Expr>, out: &mut Vec<String>)
    requires
        distinct_texts(old(out)@),
    ensures
        distinct_texts(final(out)@),
        text_set(final(out)@) == text_set(old(out)@) + places_in_exprs(exprs_view(v@), 0),
    decreases v, 0int,
{
    let ghost sv = exprs_view(v@);
    let ghost start = text_set(out@);
    let n = v.len();
    for i in 0..n
        invariant
            n == v@.len(),
            sv == exprs_view(v@),
            distinct_texts(out@),
            start + places_in_exprs(sv, 0) == text_set(out@) + places_in_exprs(sv, i as int),
    {
        assert(decreases_to!(v => v@[i as int]));
        let ghost before = text_set(out@);
        collect_places_in_expr(&v[i], out);
        assert(before + places_in_exprs(sv, i as int) =~= text_set(out@) + places_in_exprs(sv, i + 1));
    }
    assert(text_set(out@) + places_in_exprs(sv, n as int) =~= text_set(out@));
}

/// Adds the places a statement binds, assigns and reads.
pub fn collect_places_in_stmt(stmt: &Stmt, out: &mut Vec<String>)
    requires
        distinct_texts(old(out)@),
    ensures
        distinct_texts(final(out)@),
        text_set(final(out)@) == text_set(old(out)@) + places_in_stmt(stmt@),
    decreases stmt, 1int,
{
    let ghost start = text_set(out@);
    match stmt {
        Stmt::Let { name, value, .. } => {
            insert_text(out, name.clone());
            collect_places_in_expr(value, out);
            assert(text_set(out@) =~= start + places_in_stmt(stmt@));
        },
        Stmt::Assign { target, value } => {
            if let Some(place) = place_key(target) {
                insert_text(out, place);
            }
            collect_places_in_expr(target, out);
            collect_places_in_expr(value, out);
            assert(text_set(out@) =~= start + places_in_stmt(stmt@));
        },
        Stmt::Return(Some(e)) => collect_places_in_expr(e, out),
        Stmt::Expr(e) => collect_places_in_expr(e, out),
        Stmt::If { condition, then_block, else_block } => {
            collect_places_in_expr(condition, out);
            collect_places_in_block(then_block, out);
            if let Some(eb) = else_block {
                collect_places_in_block(eb, out);
            }
            assert(text_set(out@) =~= start + places_in_stmt(stmt@));
        },
        Stmt::Defer(b) => collect_places_in_block(b, out),
        _ => {
            assert(places_in_stmt(stmt@) =~= Set::<Seq<char>>::empty());
            assert(text_set(out@) =~= start + places_in_stmt(stmt@));
        },
    }
}

/// Adds the places the statements of a block touch.
pub fn collect_places_in_block(block: &Block, out: &mut Vec<String>)
    requires
        distinct_texts(old(out)@),
    ensures
        distinct_texts(final(out)@),
        text_set(final(out)@) == text_set(old(out)@) + places_in_block(block@),
    decreases block, 2int,
{
    let ghost sv = stmts_view(block.statements@);
    let ghost start = text_set(out@);
    let n = block.statements.len();
    for i in 0..n
        invariant
            n == block.statements@.len(),
            sv == stmts_view(block.statements@),
            distinct_texts(out@),
            start + places_in_stmts(sv, 0) == text_set(out@) + places_in_stmts(sv, i as int),
    {
        assert(decreases_to!(block => block.statements@[i as int]));
        proof {
            lemma_stmts_view(block.statements@);
        }
        let ghost before = text_set(out@);
        collect_places_in_stmt(&block.statements[i], out);
        assert(before + places_in_stmts(sv, i as int) =~= text_set(out@) + places_in_stmts(sv, i + 1));
    }
    assert(text_set(out@) + places_in_stmts(sv, n as int) =~= text_set(out@));
}

// ---------------------------------------------------------------------------
// Short renderings of expressions
// ---------------------------------------------------------------------------
pub open spec fn binary_op_text(op: BinaryOp) -> Seq<char> {
    match op {
        BinaryOp::Add => "+"@,
        BinaryOp::Sub => "-"@,
        BinaryOp::Mul => "*"@,
        BinaryOp::Div => "/"@,
        BinaryOp::Eq => "=="@,
        BinaryOp::Ne => "!="@,
        BinaryOp::Lt => "<"@,
        BinaryOp::Le => "<="@,
        BinaryOp::Gt => ">"@,
        BinaryOp::Ge => ">="@,
        BinaryOp::And => "&&"@,
        BinaryOp::Or => "||"@,
        _ => "?"@,
    }
}

fn binary_op_str(op: BinaryOp) -> (r: &'static str)
    ensures
        r@ == binary_op_text(op),
{
    match op {
        BinaryOp::Add => "+",
        BinaryOp::Sub => "-",
        BinaryOp::Mul => "*",
        BinaryOp::Div => "/",
        BinaryOp::Eq => "==",
        BinaryOp::Ne => "!=",
        BinaryOp::Lt => "<",
        BinaryOp::Le => "<=",
        BinaryOp::Gt => ">",
        BinaryOp::Ge => ">=",
        BinaryOp::And => "&&",
        BinaryOp::Or => "||",
        _ => "?",
    }
}

/// A short rendering of an expression: operators, names, fields, integer
/// and boolean literals and calls are written out, the rest is `...`.
pub open spec fn brief(e: SpecExpr) -> Seq<char>
    decreases e, 1int,
{
    match e {
        SpecExpr::Binary { op, left, right } => brief(*left) + seq![' '] + binary_op_text(op)
            + seq![' '] + brief(*right),
        SpecExpr::Ident(name) => name@,
        SpecExpr::Field { expr, field } => brief(*expr) + seq!['.'] + field@,
        SpecExpr::Literal(Literal::Int(n)) => signed_decimal(n as int),
        SpecExpr::Literal(Literal::Bool(b)) => if b {
            "true"@
        } else {
            "false"@
        },
        SpecExpr::Call { func, args } => brief(*func) + seq!['('] + brief_list(args, 0) + seq![')'],
        _ => "..."@,
    }
}

/// The renderings of the expressions from index `i` on, separated by ", ".
pub open spec fn brief_list(s: Seq<SpecExpr>, i: int) -> Seq<char>
    decreases s, s.len() - i,
{
    if i < 0 || i >= s.len() {
        Seq::empty()
    } else if i == s.len() - 1 {
        brief(s[i])
    } else {
        brief(s[i]) + ", "@ + brief_list(s, i + 1)
    }
}

/// A short rendering of an expression for reports.
pub fn format_expr_brief(expr: &Expr) -> (r: String)
    ensures
        r@ == brief(expr@),
    decreases expr, 1int,
{
    match expr {
        Expr::Binary { op, left, right } => {
            let mut r = format_expr_brief(left);
            push_char(&mut r, ' ');
            push_str(&mut r, binary_op_str(*op));
            push_char(&mut r, ' ');
            let rr = format_expr_brief(right);
            push_str(&mut r, rr.as_str());
            r
        },
        Expr::Ident(name) => name.clone(),
        Expr::Field { expr: inner, field } => {
            let mut r = format_expr_brief(inner);
            push_char(&mut r, '.');
            push_str(&mut r, field.as_str());
            r
        },
        Expr::Literal(Literal::Int(n)) => {
            let digits = signed_decimal_exec(*n);
            let mut r = String::new();
            push_chars(&mut r, digits.as_slice());
            assert(r@ =~= signed_decimal(*n as int));
            r
        },
        Expr::Literal(Literal::Bool(b)) => if *b {
            "true".to_owned()
        } else {
            "false".to_owned()
        },
        Expr::Call { func, args } => {
            let mut r = format_expr_brief(func);
            push_char(&mut r, '(');
            let list = format_expr_list(args);
            push_str(&mut r, list.as_str());
            push_char(&mut r, ')');
            r
        },
        _ => "...".to_owned(),
    }
}

fn format_expr_list(v: &Vec<Expr>) -> (r: String)
    ensures
        r@ == brief_list(exprs_view(v@), 0),
    decreases v, 0int,
{
    let ghost sv = exprs_view(v@);
    let mut r = String::new();
    let n = v.len();
    for i in 0..n
        invariant
            n == v@.len(),
            sv == exprs_view(v@),
            brief_list(sv, 0) == r@ + brief_list(sv, i as int),
    {
        assert(decreases_to!(v => v@[i as int]));
        let ghost before = r@;
        let item = format_expr_brief(&v[i]);
        push_str(&mut r, item.as_str());
        if i + 1 < n {
            push_str(&mut r, ", ");
            assert(before + brief_list(sv, i as int) =~= r@ + brief_list(sv, i + 1));
        } else {
            assert(before + brief_list(sv, i as int) =~= r@ + brief_list(sv, i + 1));
        }
    }
    assert(r@ + brief_list(sv, n as int) =~= r@);
    r
}

// ---------------------------------------------------------------------------
// Greatest common divisor
// ---------------------------------------------------------------------------
/// Euclid's greatest common divisor.
pub open spec fn spec_gcd(a: nat, b: nat) -> nat
    decreases b,
{
    if b == 0 {
        a
    } else {
        spec_gcd(b, a % b)
    }
}

/// Euclid's gcd is a common divisor: it divides both numbers, unless both
/// are 0.
pub proof fn lemma_gcd_divides(a: nat, b: nat)
    requires
        a > 0 || b > 0,
    ensures
        spec_gcd(a, b) > 0,
        a % spec_gcd(a, b) == 0,
        b % spec_gcd(a, b) == 0,
    decreases b,
{
    if b == 0 {
        vstd::arithmetic::div_mod::lemma_mod_self_0(a as int);
        vstd::arithmetic::div_mod::lemma_small_mod(0, a);
    } else {
        let r = a % b;
        lemma_gcd_divides(b, r);
        let g = spec_gcd(b, r);
        assert(g == spec_gcd(a, b));
        vstd::arithmetic::div_mod::lemma_fundamental_div_mod(a as int, b as int);
        vstd::arithmetic::div_mod::lemma_fundamental_div_mod(b as int, g as int);
        vstd::arithmetic::div_mod::lemma_fundamental_div_mod(r as int, g as int);
        let q = a / b;
        let bg = b / g;
        let rg = r / g;
        let k = bg * q + rg;
        assert(a == k * g) by (nonlinear_arith)
            requires
                a == b * q + r,
                b == g * bg,
                r == g * rg,
                k == bg * q + rg,
        ;
        vstd::arithmetic::div_mod::lemma_mod_multiples_basic(k as int, g as int);
    }
}

/// The greatest common divisor of two numbers (`gcd(a, 0) == a`).
pub fn gcd(a: u32, b: u32) -> (r: u32)
    ensures
        r == spec_gcd(a as nat, b as nat),
{
    let ghost a0 = a;
    let ghost b0 = b;
    let mut a = a;
    let mut b = b;
    while b != 0
        invariant
            spec_gcd(a as nat, b as nat) == spec_gcd(a0 as nat, b0 as nat),
        decreases b,
    {
        let t = b;
        b = a % b;
        a = t;
    }
    a
}

} // verus!
