//! Laws of the library's operations, each stated by what the operation
//! means rather than by how it is computed: integer arithmetic by the
//! integers it stands for, division by the equation it solves, the types of
//! operators and the codes of error messages by the category they name.
use vstd::prelude::*;
use vstd::arithmetic::div_mod::{lemma_fundamental_div_mod, lemma_mod_bound, lemma_mod_multiples_basic};
use crate::ast::{BinaryOp, Block, Expr, File, Literal, MatchArm, MatchBody, Pattern, SpecExpr, SpecStmt, StateDecl, Stmt, StructField, Type, UnaryOp};
use crate::codegen::{FnSig, MachineType, StructLayout, align_of, common_numeric, infer, place_fields, place_state, size_of, slot_size, state_type};
use crate::comptime::{
    ComptimeValue, Env, FnTable, binary_result, eval_for, eval_nested, eval_stmt, eval_stmts, eval_while, float_eq, float_le, float_lt,
    loop_limit, unary_result,
};
use crate::comptime::Flow as CtFlow;
use crate::diagnostic::analysis::parse_type_error;
use crate::shell_entry::{EntryArgErrorView, all_digits, digits_value, entry_value, int_text};
use crate::shell_exec::{
    EnvView, EventView, Flow, Io, RunError, StopView, ValOut, arms_value, binary, block_run, block_value, display, eval, eval_named, exec,
};
use crate::shell_values::{UnaryError, ValueView, last_field, seq_insert, unary_spec, value_eq};
use crate::smt::spec_gcd;
use crate::cli::split_arg;
use crate::text::{contains, decimal, is_white_space, lines, strip_cr, trim_end, trim_start, digit_char, lemma_decimal_len, signed_decimal, find, lemma_find_none, lemma_find_some, occurs_at, trim};

verus! {

/// 2^64: integer results wrap around modulo this.
pub open spec fn wrap_modulus() -> int {
    0x1_0000_0000_0000_0000
}

/// Two integers that differ by a multiple of 2^64.
pub open spec fn same_mod_2_64(a: int, b: int) -> bool {
    (a - b) % wrap_modulus() == 0
}

pub open spec fn abs(x: int) -> int {
    if x < 0 {
        -x
    } else {
        x
    }
}

/// `q` and `r` are the quotient and remainder of `a` by `b` as Rust's `/`
/// and `%` give them: `a == q * b + r`, `r` smaller than `b` in size, and
/// `r` zero or of the sign of `a` (the quotient is truncated toward zero).
pub open spec fn truncated_division(a: int, b: int, q: int, r: int) -> bool {
    &&& a == q * b + r
    &&& abs(r) < abs(b)
    &&& (r == 0 || (r < 0) == (a < 0))
}

// ---------------------------------------------------------------------------
// Integer arithmetic
// ---------------------------------------------------------------------------
proof fn lemma_nonneg_division(x: int, d: int)
    requires
        x >= 0,
        d > 0,
    ensures
        x == (x / d) * d + x % d,
        0 <= x % d < d,
        0 <= x / d <= x,
{
    lemma_fundamental_div_mod(x, d);
    lemma_mod_bound(x, d);
    assert((x / d) * d == d * (x / d)) by (nonlinear_arith);
    assert(0 <= x / d <= x) by (nonlinear_arith)
        requires
            x == d * (x / d) + x % d,
            0 <= x % d < d,
            d > 0,
            x >= 0,
    ;
}

/// Rust's `checked_div` and `checked_rem` on `i64` give the truncated
/// quotient and remainder, and fail only on a zero divisor and on
/// `i64::MIN` by `-1`.
proof fn lemma_checked_division(a: i64, b: i64)
    ensures
        (b == 0 || (a == i64::MIN && b == -1)) ==> a.checked_div(b) is None && a.checked_rem(b) is None,
        !(b == 0 || (a == i64::MIN && b == -1)) ==> (a.checked_div(b) matches Some(q) && a.checked_rem(b) matches Some(r)
            && truncated_division(a as int, b as int, q as int, r as int)),
{
    let x = a as int;
    let d = b as int;
    if b == 0 || (a == i64::MIN && b == -1) {
        return;
    }
    if x == 0 {
    } else if x > 0 && d > 0 {
        lemma_nonneg_division(x, d);
    } else if x < 0 && d < 0 {
        lemma_nonneg_division(-x, -d);
        let q = (-x) / (-d);
        let r = (-x) % (-d);
        assert(x == q * d + (-r)) by (nonlinear_arith)
            requires
                -x == q * (-d) + r,
        ;
        if d == -1 {
            assert(q * (-d) == q) by (nonlinear_arith)
                requires
                    d == -1,
            ;
            assert(q < 0x8000_0000_0000_0000);
        } else {
            assert(q * 2 <= -x) by (nonlinear_arith)
                requires
                    -d >= 2,
                    q >= 0,
                    r >= 0,
                    -x == q * (-d) + r,
            ;
        }
    } else if x < 0 {
        lemma_nonneg_division(-x, d);
        let q = (-x) / d;
        let r = (-x) % d;
        assert(x == (-q) * d + (-r)) by (nonlinear_arith)
            requires
                -x == q * d + r,
        ;
    } else {
        lemma_nonneg_division(x, -d);
        let q = x / (-d);
        let r = x % (-d);
        assert(x == (-q) * d + r) by (nonlinear_arith)
            requires
                x == q * (-d) + r,
        ;
    }
}

/// Wrapping `+`, `-` and `*` on `i64` give the integer result up to a
/// multiple of 2^64.
proof fn lemma_wrapping(a: i64, b: i64)
    ensures
        same_mod_2_64(a.wrapping_add(b) as int, a + b),
        same_mod_2_64(a.wrapping_sub(b) as int, a - b),
        same_mod_2_64(a.wrapping_mul(b) as int, a * b),
{
    let m = wrap_modulus();
    assert(m % m == 0);
    assert((-m) % m == 0);
    assert(0int % m == 0);
    let p = a * b;
    lemma_fundamental_div_mod(p, m);
    lemma_mod_bound(p, m);
    let k = p / m;
    lemma_mod_multiples_basic(-k, m);
    lemma_mod_multiples_basic(-k - 1, m);
    assert((p % m) - p == (-k) * m) by (nonlinear_arith)
        requires
            p == m * k + p % m,
    ;
    assert((p % m) - m - p == (-k - 1) * m) by (nonlinear_arith)
        requires
            p == m * k + p % m,
    ;
}

/// Integer arithmetic of comptime evaluation: `+ - *` give the integer
/// result up to a multiple of 2^64; `/` and `%` give the truncated quotient
/// and remainder, and no value for a zero divisor or `i64::MIN` by `-1`;
/// the comparisons compare the integers.
pub proof fn lemma_comptime_integer_arithmetic(a: i64, b: i64)
    ensures
        binary_result(BinaryOp::Add, ComptimeValue::Int(a), ComptimeValue::Int(b)) matches Ok(ComptimeValue::Int(s))
            && same_mod_2_64(s as int, a + b),
        binary_result(BinaryOp::Sub, ComptimeValue::Int(a), ComptimeValue::Int(b)) matches Ok(ComptimeValue::Int(d))
            && same_mod_2_64(d as int, a - b),
        binary_result(BinaryOp::Mul, ComptimeValue::Int(a), ComptimeValue::Int(b)) matches Ok(ComptimeValue::Int(p))
            && same_mod_2_64(p as int, a * b),
        b == 0 || (a == i64::MIN && b == -1) ==> binary_result(BinaryOp::Div, ComptimeValue::Int(a), ComptimeValue::Int(b)) is Err
            && binary_result(BinaryOp::Mod, ComptimeValue::Int(a), ComptimeValue::Int(b)) is Err,
        !(b == 0 || (a == i64::MIN && b == -1)) ==> (binary_result(BinaryOp::Div, ComptimeValue::Int(a), ComptimeValue::Int(b)) matches Ok(ComptimeValue::Int(q))
            && binary_result(BinaryOp::Mod, ComptimeValue::Int(a), ComptimeValue::Int(b)) matches Ok(ComptimeValue::Int(r))
            && truncated_division(a as int, b as int, q as int, r as int)),
        binary_result(BinaryOp::Eq, ComptimeValue::Int(a), ComptimeValue::Int(b)) == Ok::<ComptimeValue, ()>(ComptimeValue::Bool(a == b)),
        binary_result(BinaryOp::Ne, ComptimeValue::Int(a), ComptimeValue::Int(b)) == Ok::<ComptimeValue, ()>(ComptimeValue::Bool(a != b)),
        binary_result(BinaryOp::Lt, ComptimeValue::Int(a), ComptimeValue::Int(b)) == Ok::<ComptimeValue, ()>(ComptimeValue::Bool(a < b)),
        binary_result(BinaryOp::Le, ComptimeValue::Int(a), ComptimeValue::Int(b)) == Ok::<ComptimeValue, ()>(ComptimeValue::Bool(a <= b)),
        binary_result(BinaryOp::Gt, ComptimeValue::Int(a), ComptimeValue::Int(b)) == Ok::<ComptimeValue, ()>(ComptimeValue::Bool(a > b)),
        binary_result(BinaryOp::Ge, ComptimeValue::Int(a), ComptimeValue::Int(b)) == Ok::<ComptimeValue, ()>(ComptimeValue::Bool(a >= b)),
{
    lemma_wrapping(a, b);
    lemma_checked_division(a, b);
}

/// Integer arithmetic of a shell run: `+ - *` give the integer result up to
/// a multiple of 2^64; `/` and `%` give the truncated quotient and
/// remainder, and fail on a zero divisor (division by zero) and on
/// `i64::MIN` by `-1` (overflow); none of them asks for a reply.
pub proof fn lemma_shell_integer_arithmetic(a: i64, b: i64, used: nat, ans: Seq<ValueView>)
    ensures
        binary(BinaryOp::Add, ValueView::Int(a), ValueView::Int(b), used, ans).used == used,
        binary(BinaryOp::Add, ValueView::Int(a), ValueView::Int(b), used, ans).res matches Ok(ValueView::Int(s))
            && same_mod_2_64(s as int, a + b),
        binary(BinaryOp::Sub, ValueView::Int(a), ValueView::Int(b), used, ans).used == used,
        binary(BinaryOp::Sub, ValueView::Int(a), ValueView::Int(b), used, ans).res matches Ok(ValueView::Int(d))
            && same_mod_2_64(d as int, a - b),
        binary(BinaryOp::Mul, ValueView::Int(a), ValueView::Int(b), used, ans).used == used,
        binary(BinaryOp::Mul, ValueView::Int(a), ValueView::Int(b), used, ans).res matches Ok(ValueView::Int(p))
            && same_mod_2_64(p as int, a * b),
        binary(BinaryOp::Div, ValueView::Int(a), ValueView::Int(b), used, ans).used == used,
        binary(BinaryOp::Mod, ValueView::Int(a), ValueView::Int(b), used, ans).used == used,
        b == 0 ==> binary(BinaryOp::Div, ValueView::Int(a), ValueView::Int(b), used, ans).res
            == Err::<ValueView, StopView>(StopView::Fail(RunError::DivByZero))
            && binary(BinaryOp::Mod, ValueView::Int(a), ValueView::Int(b), used, ans).res
            == Err::<ValueView, StopView>(StopView::Fail(RunError::DivByZero)),
        a == i64::MIN && b == -1 ==> binary(BinaryOp::Div, ValueView::Int(a), ValueView::Int(b), used, ans).res
            == Err::<ValueView, StopView>(StopView::Fail(RunError::Overflow))
            && binary(BinaryOp::Mod, ValueView::Int(a), ValueView::Int(b), used, ans).res
            == Err::<ValueView, StopView>(StopView::Fail(RunError::Overflow)),
        !(b == 0 || (a == i64::MIN && b == -1)) ==> (binary(BinaryOp::Div, ValueView::Int(a), ValueView::Int(b), used, ans).res matches Ok(ValueView::Int(q))
            && binary(BinaryOp::Mod, ValueView::Int(a), ValueView::Int(b), used, ans).res matches Ok(ValueView::Int(r))
            && truncated_division(a as int, b as int, q as int, r as int)),
{
    lemma_wrapping(a, b);
    lemma_checked_division(a, b);
}

/// Comparisons of integers in a shell run: between integers that a float
/// holds exactly (up to 2^53 in size) they compare the integers, and `==`
/// and `!=` compare them whatever their size.
pub proof fn lemma_shell_integer_comparisons(a: i64, b: i64, used: nat, ans: Seq<ValueView>)
    ensures
        binary(BinaryOp::Eq, ValueView::Int(a), ValueView::Int(b), used, ans).res == Ok::<ValueView, StopView>(ValueView::Bool(a == b)),
        binary(BinaryOp::Ne, ValueView::Int(a), ValueView::Int(b), used, ans).res == Ok::<ValueView, StopView>(ValueView::Bool(a != b)),
        abs(a as int) <= 0x20_0000_0000_0000 && abs(b as int) <= 0x20_0000_0000_0000 ==> {
            &&& binary(BinaryOp::Lt, ValueView::Int(a), ValueView::Int(b), used, ans).res == Ok::<ValueView, StopView>(ValueView::Bool(a < b))
            &&& binary(BinaryOp::Le, ValueView::Int(a), ValueView::Int(b), used, ans).res == Ok::<ValueView, StopView>(ValueView::Bool(a <= b))
            &&& binary(BinaryOp::Gt, ValueView::Int(a), ValueView::Int(b), used, ans).res == Ok::<ValueView, StopView>(ValueView::Bool(a > b))
            &&& binary(BinaryOp::Ge, ValueView::Int(a), ValueView::Int(b), used, ans).res == Ok::<ValueView, StopView>(ValueView::Bool(a >= b))
        },
{
}

// ---------------------------------------------------------------------------
// Types of operators
// ---------------------------------------------------------------------------
pub open spec fn is_comparison_or_logic(op: BinaryOp) -> bool {
    op == BinaryOp::Eq || op == BinaryOp::Ne || op == BinaryOp::Lt || op == BinaryOp::Le || op == BinaryOp::Gt
        || op == BinaryOp::Ge || op == BinaryOp::And || op == BinaryOp::Or
}

pub open spec fn is_arithmetic(op: BinaryOp) -> bool {
    op == BinaryOp::Add || op == BinaryOp::Sub || op == BinaryOp::Mul || op == BinaryOp::Div || op == BinaryOp::Mod
}

pub open spec fn is_bitwise(op: BinaryOp) -> bool {
    op == BinaryOp::BitAnd || op == BinaryOp::BitOr || op == BinaryOp::BitXor || op == BinaryOp::Shl || op == BinaryOp::Shr
}

/// How wide a numeric type is: i32, i64, f32, f64 in that order.
pub open spec fn numeric_rank(t: Type) -> int {
    match t {
        Type::I32 => 1,
        Type::I64 => 2,
        Type::F32 => 3,
        Type::F64 => 4,
        _ => 0,
    }
}

/// The types that code generation gives operators: every comparison and
/// logical operator gives `bool`, whatever its operands; arithmetic on two
/// numbers gives the wider of their types; a bitwise operator gives `i64`
/// when an operand is `i64` and `i32` otherwise; `!` gives `bool` and
/// negation the type of its operand.
pub proof fn lemma_operator_types(
    op: BinaryOp,
    left: SpecExpr,
    right: SpecExpr,
    vars: Map<Seq<char>, Type>,
    structs: Seq<(String, StructLayout)>,
    sigs: Map<Seq<char>, FnSig>,
)
    ensures
        ({
            let e = SpecExpr::Binary { op, left: Box::new(left), right: Box::new(right) };
            let l = infer(left, vars, structs, sigs);
            let r = infer(right, vars, structs, sigs);
            let t = infer(e, vars, structs, sigs);
            &&& is_comparison_or_logic(op) ==> t == Type::Bool
            &&& is_arithmetic(op) && numeric_rank(l) > 0 && numeric_rank(r) > 0 ==> (t == l || t == r)
                && numeric_rank(t) >= numeric_rank(l) && numeric_rank(t) >= numeric_rank(r)
            &&& is_bitwise(op) ==> t == (if l == Type::I64 || r == Type::I64 { Type::I64 } else { Type::I32 })
        }),
        infer(SpecExpr::Unary { op: UnaryOp::Not, expr: Box::new(left) }, vars, structs, sigs) == Type::Bool,
        infer(SpecExpr::Unary { op: UnaryOp::Neg, expr: Box::new(left) }, vars, structs, sigs) == infer(left, vars, structs, sigs),
{
}

// ---------------------------------------------------------------------------
// Codes of type errors
// ---------------------------------------------------------------------------
/// The code of a type error names the first category its message falls in,
/// in this order: a moved value (`E0401`), a type mismatch (`E0201`), an
/// undefined variable (`E0202`) or function (`E0203`), an argument count
/// (`E0204`) or type (`E0205`), a return type (`E0206`), a condition that is
/// not a boolean (`E0207`), an index (`E0208`), a field (`E0209`), a struct
/// (`E0210`), a `None` without a type (`E0211`), a match pattern (`E0212`) or
/// block (`E0213`), an agent (`E0501`), a message without a handler
/// (`E0502`), a missing message argument (`E0505`), a message argument count
/// (`E0503`), a state field (`E0601`); any other message is a type mismatch.
pub proof fn lemma_type_error_codes(msg: Seq<char>)
    ensures
        (contains(msg, "Use of moved value"@))
            ==> parse_type_error(msg).0 == "E0401"@,
        !(contains(msg, "Use of moved value"@)) && (contains(msg, "type mismatch"@) || contains(msg, "Type mismatch"@))
            ==> parse_type_error(msg).0 == "E0201"@,
        !(contains(msg, "Use of moved value"@)) && !(contains(msg, "type mismatch"@) || contains(msg, "Type mismatch"@)) && (contains(msg, "Undefined variable"@))
            ==> parse_type_error(msg).0 == "E0202"@,
        !(contains(msg, "Use of moved value"@)) && !(contains(msg, "type mismatch"@) || contains(msg, "Type mismatch"@)) && !(contains(msg, "Undefined variable"@)) && (contains(msg, "Undefined function"@))
            ==> parse_type_error(msg).0 == "E0203"@,
        !(contains(msg, "Use of moved value"@)) && !(contains(msg, "type mismatch"@) || contains(msg, "Type mismatch"@)) && !(contains(msg, "Undefined variable"@)) && !(contains(msg, "Undefined function"@)) && (contains(msg, "expects"@) && contains(msg, "argument"@))
            ==> parse_type_error(msg).0 == "E0204"@,
        !(contains(msg, "Use of moved value"@)) && !(contains(msg, "type mismatch"@) || contains(msg, "Type mismatch"@)) && !(contains(msg, "Undefined variable"@)) && !(contains(msg, "Undefined function"@)) && !(contains(msg, "expects"@) && contains(msg, "argument"@)) && (contains(msg, "Argument"@) && contains(msg, "type mismatch"@))
            ==> parse_type_error(msg).0 == "E0205"@,
        !(contains(msg, "Use of moved value"@)) && !(contains(msg, "type mismatch"@) || contains(msg, "Type mismatch"@)) && !(contains(msg, "Undefined variable"@)) && !(contains(msg, "Undefined function"@)) && !(contains(msg, "expects"@) && contains(msg, "argument"@)) && !(contains(msg, "Argument"@) && contains(msg, "type mismatch"@)) && (contains(msg, "Return type mismatch"@))
            ==> parse_type_error(msg).0 == "E0206"@,
        !(contains(msg, "Use of moved value"@)) && !(contains(msg, "type mismatch"@) || contains(msg, "Type mismatch"@)) && !(contains(msg, "Undefined variable"@)) && !(contains(msg, "Undefined function"@)) && !(contains(msg, "expects"@) && contains(msg, "argument"@)) && !(contains(msg, "Argument"@) && contains(msg, "type mismatch"@)) && !(contains(msg, "Return type mismatch"@)) && (contains(msg, "Condition must be bool"@))
            ==> parse_type_error(msg).0 == "E0207"@,
        !(contains(msg, "Use of moved value"@)) && !(contains(msg, "type mismatch"@) || contains(msg, "Type mismatch"@)) && !(contains(msg, "Undefined variable"@)) && !(contains(msg, "Undefined function"@)) && !(contains(msg, "expects"@) && contains(msg, "argument"@)) && !(contains(msg, "Argument"@) && contains(msg, "type mismatch"@)) && !(contains(msg, "Return type mismatch"@)) && !(contains(msg, "Condition must be bool"@)) && (contains(msg, "Cannot index"@))
            ==> parse_type_error(msg).0 == "E0208"@,
        !(contains(msg, "Use of moved value"@)) && !(contains(msg, "type mismatch"@) || contains(msg, "Type mismatch"@)) && !(contains(msg, "Undefined variable"@)) && !(contains(msg, "Undefined function"@)) && !(contains(msg, "expects"@) && contains(msg, "argument"@)) && !(contains(msg, "Argument"@) && contains(msg, "type mismatch"@)) && !(contains(msg, "Return type mismatch"@)) && !(contains(msg, "Condition must be bool"@)) && !(contains(msg, "Cannot index"@)) && (contains(msg, "No field"@))
            ==> parse_type_error(msg).0 == "E0209"@,
        !(contains(msg, "Use of moved value"@)) && !(contains(msg, "type mismatch"@) || contains(msg, "Type mismatch"@)) && !(contains(msg, "Undefined variable"@)) && !(contains(msg, "Undefined function"@)) && !(contains(msg, "expects"@) && contains(msg, "argument"@)) && !(contains(msg, "Argument"@) && contains(msg, "type mismatch"@)) && !(contains(msg, "Return type mismatch"@)) && !(contains(msg, "Condition must be bool"@)) && !(contains(msg, "Cannot index"@)) && !(contains(msg, "No field"@)) && (contains(msg, "Unknown struct"@))
            ==> parse_type_error(msg).0 == "E0210"@,
        !(contains(msg, "Use of moved value"@)) && !(contains(msg, "type mismatch"@) || contains(msg, "Type mismatch"@)) && !(contains(msg, "Undefined variable"@)) && !(contains(msg, "Undefined function"@)) && !(contains(msg, "expects"@) && contains(msg, "argument"@)) && !(contains(msg, "Argument"@) && contains(msg, "type mismatch"@)) && !(contains(msg, "Return type mismatch"@)) && !(contains(msg, "Condition must be bool"@)) && !(contains(msg, "Cannot index"@)) && !(contains(msg, "No field"@)) && !(contains(msg, "Unknown struct"@)) && (contains(msg, "None requires explicit"@))
            ==> parse_type_error(msg).0 == "E0211"@,
        !(contains(msg, "Use of moved value"@)) && !(contains(msg, "type mismatch"@) || contains(msg, "Type mismatch"@)) && !(contains(msg, "Undefined variable"@)) && !(contains(msg, "Undefined function"@)) && !(contains(msg, "expects"@) && contains(msg, "argument"@)) && !(contains(msg, "Argument"@) && contains(msg, "type mismatch"@)) && !(contains(msg, "Return type mismatch"@)) && !(contains(msg, "Condition must be bool"@)) && !(contains(msg, "Cannot index"@)) && !(contains(msg, "No field"@)) && !(contains(msg, "Unknown struct"@)) && !(contains(msg, "None requires explicit"@)) && (contains(msg, "pattern cannot match"@))
            ==> parse_type_error(msg).0 == "E0212"@,
        !(contains(msg, "Use of moved value"@)) && !(contains(msg, "type mismatch"@) || contains(msg, "Type mismatch"@)) && !(contains(msg, "Undefined variable"@)) && !(contains(msg, "Undefined function"@)) && !(contains(msg, "expects"@) && contains(msg, "argument"@)) && !(contains(msg, "Argument"@) && contains(msg, "type mismatch"@)) && !(contains(msg, "Return type mismatch"@)) && !(contains(msg, "Condition must be bool"@)) && !(contains(msg, "Cannot index"@)) && !(contains(msg, "No field"@)) && !(contains(msg, "Unknown struct"@)) && !(contains(msg, "None requires explicit"@)) && !(contains(msg, "pattern cannot match"@)) && (contains(msg, "block must end with an expression"@))
            ==> parse_type_error(msg).0 == "E0213"@,
        !(contains(msg, "Use of moved value"@)) && !(contains(msg, "type mismatch"@) || contains(msg, "Type mismatch"@)) && !(contains(msg, "Undefined variable"@)) && !(contains(msg, "Undefined function"@)) && !(contains(msg, "expects"@) && contains(msg, "argument"@)) && !(contains(msg, "Argument"@) && contains(msg, "type mismatch"@)) && !(contains(msg, "Return type mismatch"@)) && !(contains(msg, "Condition must be bool"@)) && !(contains(msg, "Cannot index"@)) && !(contains(msg, "No field"@)) && !(contains(msg, "Unknown struct"@)) && !(contains(msg, "None requires explicit"@)) && !(contains(msg, "pattern cannot match"@)) && !(contains(msg, "block must end with an expression"@)) && (contains(msg, "Unknown agent"@))
            ==> parse_type_error(msg).0 == "E0501"@,
        !(contains(msg, "Use of moved value"@)) && !(contains(msg, "type mismatch"@) || contains(msg, "Type mismatch"@)) && !(contains(msg, "Undefined variable"@)) && !(contains(msg, "Undefined function"@)) && !(contains(msg, "expects"@) && contains(msg, "argument"@)) && !(contains(msg, "Argument"@) && contains(msg, "type mismatch"@)) && !(contains(msg, "Return type mismatch"@)) && !(contains(msg, "Condition must be bool"@)) && !(contains(msg, "Cannot index"@)) && !(contains(msg, "No field"@)) && !(contains(msg, "Unknown struct"@)) && !(contains(msg, "None requires explicit"@)) && !(contains(msg, "pattern cannot match"@)) && !(contains(msg, "block must end with an expression"@)) && !(contains(msg, "Unknown agent"@)) && (contains(msg, "has no handler"@))
            ==> parse_type_error(msg).0 == "E0502"@,
        !(contains(msg, "Use of moved value"@)) && !(contains(msg, "type mismatch"@) || contains(msg, "Type mismatch"@)) && !(contains(msg, "Undefined variable"@)) && !(contains(msg, "Undefined function"@)) && !(contains(msg, "expects"@) && contains(msg, "argument"@)) && !(contains(msg, "Argument"@) && contains(msg, "type mismatch"@)) && !(contains(msg, "Return type mismatch"@)) && !(contains(msg, "Condition must be bool"@)) && !(contains(msg, "Cannot index"@)) && !(contains(msg, "No field"@)) && !(contains(msg, "Unknown struct"@)) && !(contains(msg, "None requires explicit"@)) && !(contains(msg, "pattern cannot match"@)) && !(contains(msg, "block must end with an expression"@)) && !(contains(msg, "Unknown agent"@)) && !(contains(msg, "has no handler"@)) && (contains(msg, "missing required argument"@))
            ==> parse_type_error(msg).0 == "E0505"@,
        !(contains(msg, "Use of moved value"@)) && !(contains(msg, "type mismatch"@) || contains(msg, "Type mismatch"@)) && !(contains(msg, "Undefined variable"@)) && !(contains(msg, "Undefined function"@)) && !(contains(msg, "expects"@) && contains(msg, "argument"@)) && !(contains(msg, "Argument"@) && contains(msg, "type mismatch"@)) && !(contains(msg, "Return type mismatch"@)) && !(contains(msg, "Condition must be bool"@)) && !(contains(msg, "Cannot index"@)) && !(contains(msg, "No field"@)) && !(contains(msg, "Unknown struct"@)) && !(contains(msg, "None requires explicit"@)) && !(contains(msg, "pattern cannot match"@)) && !(contains(msg, "block must end with an expression"@)) && !(contains(msg, "Unknown agent"@)) && !(contains(msg, "has no handler"@)) && !(contains(msg, "missing required argument"@)) && (contains(msg, "Message"@) && contains(msg, "expects"@) && contains(msg, "argument(s)"@))
            ==> parse_type_error(msg).0 == "E0503"@,
        !(contains(msg, "Use of moved value"@)) && !(contains(msg, "type mismatch"@) || contains(msg, "Type mismatch"@)) && !(contains(msg, "Undefined variable"@)) && !(contains(msg, "Undefined function"@)) && !(contains(msg, "expects"@) && contains(msg, "argument"@)) && !(contains(msg, "Argument"@) && contains(msg, "type mismatch"@)) && !(contains(msg, "Return type mismatch"@)) && !(contains(msg, "Condition must be bool"@)) && !(contains(msg, "Cannot index"@)) && !(contains(msg, "No field"@)) && !(contains(msg, "Unknown struct"@)) && !(contains(msg, "None requires explicit"@)) && !(contains(msg, "pattern cannot match"@)) && !(contains(msg, "block must end with an expression"@)) && !(contains(msg, "Unknown agent"@)) && !(contains(msg, "has no handler"@)) && !(contains(msg, "missing required argument"@)) && !(contains(msg, "Message"@) && contains(msg, "expects"@) && contains(msg, "argument(s)"@)) && (contains(msg, "Unknown state field"@))
            ==> parse_type_error(msg).0 == "E0601"@,
        !(contains(msg, "Use of moved value"@)) && !(contains(msg, "type mismatch"@) || contains(msg, "Type mismatch"@)) && !(contains(msg, "Undefined variable"@)) && !(contains(msg, "Undefined function"@)) && !(contains(msg, "expects"@) && contains(msg, "argument"@)) && !(contains(msg, "Argument"@) && contains(msg, "type mismatch"@)) && !(contains(msg, "Return type mismatch"@)) && !(contains(msg, "Condition must be bool"@)) && !(contains(msg, "Cannot index"@)) && !(contains(msg, "No field"@)) && !(contains(msg, "Unknown struct"@)) && !(contains(msg, "None requires explicit"@)) && !(contains(msg, "pattern cannot match"@)) && !(contains(msg, "block must end with an expression"@)) && !(contains(msg, "Unknown agent"@)) && !(contains(msg, "has no handler"@)) && !(contains(msg, "missing required argument"@)) && !(contains(msg, "Message"@) && contains(msg, "expects"@) && contains(msg, "argument(s)"@)) && !(contains(msg, "Unknown state field"@)) && !(contains(msg, "Unknown agent"@) && contains(msg, "view"@))
            ==> parse_type_error(msg).0 == "E0201"@,
{
}

// ---------------------------------------------------------------------------
// Entry arguments
// ---------------------------------------------------------------------------
/// A boolean entry argument reads back to its text: it is `true` exactly
/// for the text `true` and `false` exactly for the text `false`, and any
/// other text is refused.
pub proof fn lemma_bool_entry_argument(text: Seq<char>, floats: Map<Seq<char>, u64>)
    ensures
        entry_value(Type::Bool, text, floats) matches Ok(ValueView::Bool(b)) ==> text == (if b { "true"@ } else { "false"@ }),
        text == "true"@ ==> entry_value(Type::Bool, text, floats) == Ok::<ValueView, EntryArgErrorView>(ValueView::Bool(true)),
        text == "false"@ ==> entry_value(Type::Bool, text, floats) == Ok::<ValueView, EntryArgErrorView>(ValueView::Bool(false)),
        text != "true"@ && text != "false"@ ==> entry_value(Type::Bool, text, floats) == Err::<ValueView, EntryArgErrorView>(EntryArgErrorView::NotABool(text)),
{
    reveal_strlit("true");
    reveal_strlit("false");
    assert("true"@ != "false"@) by {
        assert("true"@.len() != "false"@.len());
    }
}


// ---------------------------------------------------------------------------
// Booleans, texts and unary operators
// ---------------------------------------------------------------------------
/// `&&` and `||` on booleans are conjunction and disjunction, in comptime
/// evaluation and in a shell run; in a shell run `+` on two texts joins
/// them, and a left operand of `&&` or `||` that is not a boolean fails.
pub proof fn lemma_boolean_and_text_operators(p: bool, q: bool, x: Seq<char>, y: Seq<char>, v: ValueView, used: nat, ans: Seq<ValueView>)
    ensures
        binary_result(BinaryOp::And, ComptimeValue::Bool(p), ComptimeValue::Bool(q)) == Ok::<ComptimeValue, ()>(ComptimeValue::Bool(p && q)),
        binary_result(BinaryOp::Or, ComptimeValue::Bool(p), ComptimeValue::Bool(q)) == Ok::<ComptimeValue, ()>(ComptimeValue::Bool(p || q)),
        binary(BinaryOp::And, ValueView::Bool(p), ValueView::Bool(q), used, ans).res == Ok::<ValueView, StopView>(ValueView::Bool(p && q)),
        binary(BinaryOp::Or, ValueView::Bool(p), ValueView::Bool(q), used, ans).res == Ok::<ValueView, StopView>(ValueView::Bool(p || q)),
        !(v is Bool) ==> binary(BinaryOp::And, v, ValueView::Bool(q), used, ans).res == Err::<ValueView, StopView>(StopView::Fail(RunError::NotBool))
            && binary(BinaryOp::Or, v, ValueView::Bool(q), used, ans).res == Err::<ValueView, StopView>(StopView::Fail(RunError::NotBool)),
        binary(BinaryOp::Add, ValueView::Str(x), ValueView::Str(y), used, ans).res == Ok::<ValueView, StopView>(ValueView::Str(x + y)),
{
}

/// Negation of an integer gives the number that adds to it to zero, and
/// fails only on `i64::MIN`; `!` of a boolean gives its opposite; in
/// comptime evaluation and in a shell run alike.
pub proof fn lemma_unary_operators(n: i64, b: bool)
    ensures
        n != i64::MIN ==> (unary_result(UnaryOp::Neg, ComptimeValue::Int(n)) matches Ok(ComptimeValue::Int(m)) && m + n == 0),
        n == i64::MIN ==> unary_result(UnaryOp::Neg, ComptimeValue::Int(n)) is Err,
        unary_result(UnaryOp::Not, ComptimeValue::Bool(b)) == Ok::<ComptimeValue, ()>(ComptimeValue::Bool(!b)),
        n != i64::MIN ==> (unary_spec(UnaryOp::Neg, ValueView::Int(n)) matches Ok(ValueView::Int(m)) && m + n == 0),
        n == i64::MIN ==> unary_spec(UnaryOp::Neg, ValueView::Int(n)) == Err::<ValueView, UnaryError>(UnaryError::Overflow),
        unary_spec(UnaryOp::Not, ValueView::Bool(b)) == Ok::<ValueView, UnaryError>(ValueView::Bool(!b)),
{
}

// ---------------------------------------------------------------------------
// Greatest common divisor
// ---------------------------------------------------------------------------
/// Every common divisor of two numbers divides their gcd, so the gcd is the
/// greatest of them.
pub proof fn lemma_gcd_greatest(a: nat, b: nat, d: nat)
    requires
        d > 0,
        a % d == 0,
        b % d == 0,
    ensures
        spec_gcd(a, b) % d == 0,
    decreases b,
{
    if b > 0 {
        let r = a % b;
        lemma_fundamental_div_mod(a as int, b as int);
        lemma_fundamental_div_mod(a as int, d as int);
        lemma_fundamental_div_mod(b as int, d as int);
        let q = a / b;
        let x = a / d;
        let y = b / d;
        let k = x - y * q;
        assert(r == k * d) by (nonlinear_arith)
            requires
                a == b * q + r,
                a == d * x,
                b == d * y,
                k == x - y * q,
        ;
        lemma_mod_multiples_basic(k, d as int);
        lemma_gcd_greatest(b, r, d);
    }
}

// ---------------------------------------------------------------------------
// Statements of a shell run
// ---------------------------------------------------------------------------
/// A name bound by `let` reads back as the value it was bound to: the block
/// `{ let x = e; x }` has the value of `e`, and fails as `e` fails.
pub proof fn lemma_let_then_read(file: File, f: nat, name: String, ty: Option<Type>, e: Expr, env: EnvView, io: Io, ans: Seq<ValueView>)
    requires
        f >= 3,
    ensures
        ({
            let stmts = seq![Stmt::Let { name, ty, value: e }, Stmt::Expr(Expr::Ident(name))];
            let o = eval(file, (f - 2) as nat, e, env, io, ans);
            let b = block_value(file, f, stmts, 0, env, io, ans, ValueView::Unit);
            &&& b.res == o.res
            &&& b.io == o.io
        }),
{
    let stmts = seq![Stmt::Let { name, ty, value: e }, Stmt::Expr(Expr::Ident(name))];
    let o = eval(file, (f - 2) as nat, e, env, io, ans);
    if let Ok(v) = o.res {
        let env2 = env.insert(name@, v);
        assert(exec(file, (f - 1) as nat, stmts[0], env, io, ans).env == env2);
        assert(block_value(file, f, stmts, 0, env, io, ans, ValueView::Unit) == block_value(file, (f - 1) as nat, stmts, 1, env2, o.io, ans, ValueView::Unit));
        assert(eval(file, (f - 2) as nat, Expr::Ident(name), env2, o.io, ans) == (ValOut { res: Ok(v), io: o.io }));
        assert(block_value(file, (f - 1) as nat, stmts, 1, env2, o.io, ans, ValueView::Unit) == block_value(file, (f - 2) as nat, stmts, 2, env2, o.io, ans, v));
    }
}

/// A name assigned reads back as the value assigned: the block
/// `{ x = e; x }` has the value of `e`, and fails as `e` fails.
pub proof fn lemma_assign_then_read(file: File, f: nat, name: String, e: Expr, env: EnvView, io: Io, ans: Seq<ValueView>)
    requires
        f >= 3,
    ensures
        ({
            let stmts = seq![Stmt::Assign { target: Expr::Ident(name), value: e }, Stmt::Expr(Expr::Ident(name))];
            let o = eval(file, (f - 2) as nat, e, env, io, ans);
            let b = block_value(file, f, stmts, 0, env, io, ans, ValueView::Unit);
            &&& b.res == o.res
            &&& b.io == o.io
        }),
{
    let stmts = seq![Stmt::Assign { target: Expr::Ident(name), value: e }, Stmt::Expr(Expr::Ident(name))];
    let o = eval(file, (f - 2) as nat, e, env, io, ans);
    if let Ok(v) = o.res {
        let env2 = env.insert(name@, v);
        assert(exec(file, (f - 1) as nat, stmts[0], env, io, ans).env == env2);
        assert(block_value(file, f, stmts, 0, env, io, ans, ValueView::Unit) == block_value(file, (f - 1) as nat, stmts, 1, env2, o.io, ans, ValueView::Unit));
        assert(eval(file, (f - 2) as nat, Expr::Ident(name), env2, o.io, ans) == (ValOut { res: Ok(v), io: o.io }));
        assert(block_value(file, (f - 1) as nat, stmts, 1, env2, o.io, ans, ValueView::Unit) == block_value(file, (f - 2) as nat, stmts, 2, env2, o.io, ans, v));
    }
}

/// A `while` loop whose condition is false runs nothing: it ends normally
/// with the environment as it was (the condition may have sent messages or
/// used replies).
pub proof fn lemma_while_false_runs_nothing(file: File, f: nat, cond: Expr, body: Block, env: EnvView, io: Io, ans: Seq<ValueView>)
    requires
        f >= 2,
        eval(file, (f - 2) as nat, cond, env, io, ans).res == Ok::<ValueView, StopView>(ValueView::Bool(false)),
    ensures
        ({
            let o = exec(file, f, Stmt::While { condition: cond, body }, env, io, ans);
            &&& o.res == Ok::<Flow, StopView>(Flow::Normal)
            &&& o.env == env
            &&& o.io == eval(file, (f - 2) as nat, cond, env, io, ans).io
        }),
{
}

/// An `if` runs the block its condition chooses: the `then` block when the
/// condition is true, the `else` block (or nothing) when it is false.
pub proof fn lemma_if_chooses_branch(file: File, f: nat, cond: Expr, then_block: Block, else_block: Option<Block>, env: EnvView, io: Io, ans: Seq<ValueView>)
    requires
        f >= 1,
    ensures
        ({
            let g = (f - 1) as nat;
            let c = eval(file, g, cond, env, io, ans);
            let o = exec(file, f, Stmt::If { condition: cond, then_block, else_block }, env, io, ans);
            &&& c.res == Ok::<ValueView, StopView>(ValueView::Bool(true)) ==> o == block_run(file, g, then_block.statements@, 0, Seq::empty(), false, env, c.io, ans)
            &&& c.res == Ok::<ValueView, StopView>(ValueView::Bool(false)) ==> match else_block {
                Some(eb) => o == block_run(file, g, eb.statements@, 0, Seq::empty(), false, env, c.io, ans),
                None => o.res == Ok::<Flow, StopView>(Flow::Normal) && o.env == env && o.io == c.io,
            }
        }),
{
}

/// A `send` adds one message at the end of the queue, to its target, with
/// the text of its message, after whatever evaluating its message and its
/// arguments queued; it leaves the environment as it was.
pub proof fn lemma_send_appends_one_message(file: File, f: nat, message: Expr, target: String, args: Vec<(String, Expr)>, env: EnvView, io: Io, ans: Seq<ValueView>)
    requires
        f >= 1,
    ensures
        ({
            let g = (f - 1) as nat;
            let m = eval(file, g, message, env, io, ans);
            let n = eval_named(file, g, args@, 0, false, env, m.io, ans, Seq::empty());
            let o = exec(file, f, Stmt::Send { message, target, args }, env, io, ans);
            m.res matches Ok(ValueView::Str(text)) ==> n.res is Ok ==> {
                &&& o.res == Ok::<Flow, StopView>(Flow::Normal)
                &&& o.env == env
                &&& o.io.used == n.io.used
                &&& o.io.queue.len() == n.io.queue.len() + 1
                &&& o.io.queue.subrange(0, n.io.queue.len() as int) == n.io.queue
                &&& o.io.queue.last().target == target@
                &&& o.io.queue.last().message == text
            }
        }),
{
    let g = (f - 1) as nat;
    let m = eval(file, g, message, env, io, ans);
    if let Ok(ValueView::Str(text)) = m.res {
        let n = eval_named(file, g, args@, 0, false, env, m.io, ans, Seq::empty());
        if n.res is Ok {
            let o = exec(file, f, Stmt::Send { message, target, args }, env, io, ans);
            assert(o.io.queue.subrange(0, n.io.queue.len() as int) =~= n.io.queue);
        }
    }
}

/// A match arm whose pattern is a name binds the whole value to it: the
/// match `match v { x => x }` has the value `v`.
pub proof fn lemma_match_name_binds_value(file: File, f: nat, name: String, v: ValueView, env: EnvView, io: Io, ans: Seq<ValueView>)
    requires
        f >= 2,
        name@ != "_"@,
    ensures
        ({
            let arms = seq![MatchArm { pattern: Pattern::Ident(name), body: MatchBody::Expr(Expr::Ident(name)) }];
            arms_value(file, f, arms, 0, v, env, io, ans) == (ValOut { res: Ok(v), io })
        }),
{
    let env2 = env.insert(name@, v);
    let bs = seq![(name@, v)];
    assert(bs.drop_last() =~= Seq::<(Seq<char>, ValueView)>::empty());
    assert(crate::shell_exec::bind_all(env, bs.drop_last()) == env);
    assert(crate::shell_exec::bind_all(env, bs) == env2);
    assert(crate::shell_values::pattern_bindings(Pattern::Ident(name), v) == Some(bs));
    let arms = seq![MatchArm { pattern: Pattern::Ident(name), body: MatchBody::Expr(Expr::Ident(name)) }];
    assert(arms[0].pattern == Pattern::Ident(name));
    assert(arms[0].body == MatchBody::Expr(Expr::Ident(name)));
    assert(env2.contains_key(name@) && env2[name@] == v);
    assert(eval(file, (f - 1) as nat, Expr::Ident(name), env2, io, ans) == (ValOut { res: Ok(v), io }));
    assert(arms_value(file, f, arms, 0, v, env, io, ans) == eval(file, (f - 1) as nat, Expr::Ident(name), env2, io, ans));
}

// ---------------------------------------------------------------------------
// Command-line arguments
// ---------------------------------------------------------------------------
/// A `--arg` item is split at its first `=`: it is refused exactly when it
/// has no `=`, and otherwise the name is the trimmed text before the first
/// `=` and the value the trimmed text after it.
pub proof fn lemma_run_arg_split(item: Seq<char>)
    ensures
        split_arg(item) is None <==> (forall|j: int| 0 <= j < item.len() ==> item[j] != '='),
        split_arg(item) matches Some((k, v)) ==> exists|i: int| {
            &&& 0 <= i < item.len()
            &&& item[i] == '='
            &&& (forall|j: int| 0 <= j < i ==> item[j] != '=')
            &&& k == trim(item.subrange(0, i))
            &&& v == trim(item.subrange(i + 1, item.len() as int))
        },
{
    let eq = seq!['='];
    match find(item, eq) {
        Some(i) => {
            lemma_find_some(item, eq, 0);
            assert(item.subrange(i, i + 1) == eq);
            assert(item[i] == item.subrange(i, i + 1)[0]);
            assert forall|j: int| 0 <= j < i implies item[j] != '=' by {
                if item[j] == '=' {
                    assert(item.subrange(j, j + 1) =~= eq);
                    assert(occurs_at(item, eq, j));
                }
            }
        },
        None => {
            lemma_find_none(item, eq, 0);
            assert forall|j: int| 0 <= j < item.len() implies item[j] != '=' by {
                if item[j] == '=' {
                    assert(item.subrange(j, j + 1) =~= eq);
                    assert(occurs_at(item, eq, j));
                }
            }
        },
    }
}

proof fn lemma_decimal_digits(n: nat)
    ensures
        all_digits(decimal(n)),
        digits_value(decimal(n)) == n,
    decreases n,
{
    if n >= 10 {
        lemma_decimal_digits(n / 10);
        let s = decimal(n / 10);
        let d = (n % 10) as nat;
        assert(decimal(n).drop_last() =~= s);
        assert(decimal(n).last() == digit_char(d));
        assert(digit_char(d) as int - '0' as int == d);
        assert(digits_value(decimal(n)) == digits_value(s) * 10 + d);
        lemma_fundamental_div_mod(n as int, 10);
        assert(digits_value(s) == n / 10);
        assert(n == (n / 10) * 10 + d);
        assert(all_digits(decimal(n))) by {
            assert forall|i: int| 0 <= i < decimal(n).len() implies crate::shell_entry::is_digit(#[trigger] decimal(n)[i]) by {
                if i < s.len() {
                    assert(decimal(n)[i] == s[i]);
                }
            }
        }
    } else {
        assert(decimal(n).drop_last() =~= Seq::<char>::empty());
        assert(digit_char(n) as int - '0' as int == n);
        assert(digits_value(decimal(n).drop_last()) == 0);
        assert(digits_value(decimal(n)) == digits_value(decimal(n).drop_last()) * 10 + (decimal(n).last() as int - '0' as int));
    }
}

/// An entry integer reads back from its decimal text: the text that the
/// library writes for `n` (a `-` for a negative number, then its digits)
/// is read as `n`.
pub proof fn lemma_int_text_reads_decimal(n: i64)
    ensures
        int_text(signed_decimal(n as int)) == Some(n),
{
    if n < 0 {
        let m = (-(n as int)) as nat;
        lemma_decimal_digits(m);
        lemma_decimal_len(m);
        let s = signed_decimal(n as int);
        assert(s.drop_first() =~= decimal(m));
        assert(s[0] == '-');
    } else {
        let m = n as nat;
        lemma_decimal_digits(m);
        lemma_decimal_len(m);
        let s = decimal(m);
        assert(crate::shell_entry::is_digit(s[0]));
    }
}

// ---------------------------------------------------------------------------
// Struct layouts
// ---------------------------------------------------------------------------
proof fn lemma_round_up(off: u32, align: u32)
    requires
        align >= 1,
        off + align - 1 <= u32::MAX,
    ensures
        off <= (((off + align - 1) as u32) & !((align - 1) as u32)),
        (align == 1 || align == 2 || align == 4 || align == 8) ==> (((off + align - 1) as u32) & !((align - 1) as u32)) % align == 0,
{
    assert(off <= (((off + align - 1) as u32) & !((align - 1) as u32))) by (bit_vector)
        requires
            align >= 1u32,
            off + align - 1 <= 0xffff_ffffu32,
    ;
    if align == 1 || align == 2 || align == 4 || align == 8 {
        crate::codegen::lemma_field_offset_aligned(off, align);
    }
}

/// The fields of a struct are laid out in declaration order without
/// overlapping: each starts at or after the end of the one before it, at a
/// multiple of its alignment when that is 1, 2, 4 or 8, and the layout ends
/// where the last field ends.
pub proof fn lemma_fields_do_not_overlap(fields: Seq<StructField>, structs: Seq<(String, StructLayout)>, k: int)
    requires
        0 <= k <= fields.len(),
        place_fields(fields, structs, k) is Some,
    ensures
        ({
            let placed = (place_fields(fields, structs, k)->0).0;
            let end = (place_fields(fields, structs, k)->0).1;
            &&& placed.len() == k
            &&& k == 0 ==> end == 0
            &&& forall|i: int| 0 <= i < k ==> {
                let size = size_of(fields[i].ty, structs);
                let align = align_of(size);
                &&& (#[trigger] placed[i]).0 == fields[i].name@
                &&& placed[i].2 == fields[i].ty
                &&& placed[i].1 + size <= (if i + 1 < k { placed[i + 1].1 as int } else { end as int })
                &&& (i + 1 == k ==> placed[i].1 + size == end)
                &&& (align == 1 || align == 2 || align == 4 || align == 8) ==> placed[i].1 % align == 0
            }
            &&& forall|i: int| 0 < i < k ==> (#[trigger] placed[i]).1 >= placed[i - 1].1
        }),
    decreases k,
{
    if k > 0 {
        lemma_fields_do_not_overlap(fields, structs, k - 1);
        let (prev, off) = place_fields(fields, structs, k - 1)->0;
        let size = size_of(fields[k - 1].ty, structs);
        let align = align_of(size);
        lemma_round_up(off, align);
        let placed = (place_fields(fields, structs, k)->0).0;
        assert(placed.drop_last() == prev);
        assert forall|i: int| 0 <= i < k - 1 implies #[trigger] placed[i] == prev[i] by {
            assert(placed[i] == placed.drop_last()[i]);
        }
    }
}

// ---------------------------------------------------------------------------
// Comptime statements
// ---------------------------------------------------------------------------
/// In comptime evaluation a name bound by `let` and returned gives the
/// value it was bound to: `let x = e; return x;` returns the value of `e`
/// (and fails where `e` fails).
pub proof fn lemma_comptime_let_then_return(t: FnTable, name: String, ty: Option<Type>, e: SpecExpr, env: Env, d: int, mx: int, result: ComptimeValue)
    ensures
        ({
            let ss = seq![SpecStmt::Let { name, ty, value: e }, SpecStmt::Return(Some(SpecExpr::Ident(name)))];
            match crate::comptime::eval_expr(t, e, env, d, mx) {
                Ok(v) => eval_stmts(t, ss, 0, env, d, mx, result) == Ok::<(CtFlow, Env), ()>((CtFlow::Return(v), env.insert(name@, v))),
                Err(_) => eval_stmts(t, ss, 0, env, d, mx, result) is Err,
            }
        }),
{
    reveal(eval_stmts);
    reveal(eval_stmt);
    let ss = seq![SpecStmt::Let { name, ty, value: e }, SpecStmt::Return(Some(SpecExpr::Ident(name)))];
    if let Ok(v) = crate::comptime::eval_expr(t, e, env, d, mx) {
        let env2 = env.insert(name@, v);
        assert(eval_stmt(t, ss[0], env, d, mx, result) == Ok::<(CtFlow, Env), ()>((CtFlow::Continue(result), env2)));
        assert(crate::comptime::eval_expr(t, SpecExpr::Ident(name), env2, d, mx) == Ok::<ComptimeValue, ()>(v));
        assert(eval_stmt(t, ss[1], env2, d, mx, result) == Ok::<(CtFlow, Env), ()>((CtFlow::Return(v), env2)));
        assert(eval_stmts(t, ss, 0, env, d, mx, result) == eval_stmts(t, ss, 1, env2, d, mx, result));
    }
}

// ---------------------------------------------------------------------------
// Shell values
// ---------------------------------------------------------------------------
/// Equality of shell values on integers, booleans and texts is equality of
/// what they hold, and values of different kinds are never equal.
pub proof fn lemma_scalar_equality(x: i64, y: i64, p: bool, q: bool, s: Seq<char>, u: Seq<char>)
    ensures
        value_eq(ValueView::Int(x), ValueView::Int(y)) == (x == y),
        value_eq(ValueView::Bool(p), ValueView::Bool(q)) == (p == q),
        value_eq(ValueView::Str(s), ValueView::Str(u)) == (s == u),
        !value_eq(ValueView::Int(x), ValueView::Bool(p)),
        !value_eq(ValueView::Int(x), ValueView::Str(s)),
        !value_eq(ValueView::Str(s), ValueView::Int(x)),
        value_eq(ValueView::Unit, ValueView::Unit),
        value_eq(ValueView::Opt(None), ValueView::Opt(None)),
        !value_eq(ValueView::Opt(None), ValueView::Int(x)),
{
}

/// The text that `+` gives an integer reads back as the integer; booleans
/// read `true` and `false`, texts stay as they are; none of them asks for a
/// reply.
pub proof fn lemma_display_reads_back(n: i64, b: bool, s: Seq<char>, used: nat, ans: Seq<ValueView>)
    ensures
        display(ValueView::Int(n), used, ans).res matches Ok(t) && int_text(t) == Some(n),
        display(ValueView::Bool(b), used, ans).res == Ok::<Seq<char>, StopView>(if b { "true"@ } else { "false"@ }),
        display(ValueView::Str(s), used, ans).res == Ok::<Seq<char>, StopView>(s),
        display(ValueView::Int(n), used, ans).used == used,
{
    lemma_int_text_reads_decimal(n);
}

proof fn lemma_last_field_at(fs: Seq<(Seq<char>, ValueView)>, name: Seq<char>, i: int)
    requires
        0 <= i < fs.len(),
        fs[i].0 == name,
        forall|j: int| i < j < fs.len() ==> (#[trigger] fs[j]).0 != name,
    ensures
        last_field(fs, name) == Some(i),
    decreases fs.len(),
{
    if i < fs.len() - 1 {
        lemma_last_field_at(fs.drop_last(), name, i);
    }
}

proof fn lemma_last_field_found(fs: Seq<(Seq<char>, ValueView)>, name: Seq<char>)
    ensures
        last_field(fs, name) matches Some(i) ==> 0 <= i < fs.len() && fs[i].0 == name && forall|j: int| i < j < fs.len() ==> (#[trigger] fs[j]).0 != name,
        last_field(fs, name) is None ==> forall|j: int| 0 <= j < fs.len() ==> (#[trigger] fs[j]).0 != name,
    decreases fs.len(),
{
    if fs.len() > 0 && fs.last().0 != name {
        let ds = fs.drop_last();
        lemma_last_field_found(ds, name);
        assert(last_field(fs, name) == last_field(ds, name));
        match last_field(ds, name) {
            Some(i) => {
                assert(ds[i] == fs[i]);
                assert forall|j: int| i < j < fs.len() implies (#[trigger] fs[j]).0 != name by {
                    if j < ds.len() {
                        assert(ds[j] == fs[j]);
                    }
                }
            },
            None => {
                assert forall|j: int| 0 <= j < fs.len() implies (#[trigger] fs[j]).0 != name by {
                    if j < ds.len() {
                        assert(ds[j] == fs[j]);
                    }
                }
            },
        }
    }
}

/// A field set on a struct reads back: after setting `name` to `v` the
/// field `name` is `v`, and every other field reads as before.
pub proof fn lemma_field_set_reads_back(fs: Seq<(Seq<char>, ValueView)>, name: Seq<char>, other: Seq<char>, v: ValueView)
    requires
        other != name,
    ensures
        last_field(seq_insert(fs, name, v), name) matches Some(i) && seq_insert(fs, name, v)[i].1 == v,
        match last_field(fs, other) {
            Some(j) => last_field(seq_insert(fs, name, v), other) == Some(j) && seq_insert(fs, name, v)[j] == fs[j],
            None => last_field(seq_insert(fs, name, v), other) is None,
        },
{
    lemma_last_field_found(fs, name);
    lemma_last_field_found(fs, other);
    let gs = seq_insert(fs, name, v);
    match last_field(fs, name) {
        Some(i) => {
            lemma_last_field_at(gs, name, i);
            match last_field(fs, other) {
                Some(j) => {
                    assert(j != i);
                    lemma_last_field_at(gs, other, j);
                },
                None => {
                    lemma_last_field_found(gs, other);
                    assert forall|k: int| 0 <= k < gs.len() implies (#[trigger] gs[k]).0 != other by {
                        if k != i {
                            assert(gs[k] == fs[k]);
                        }
                    }
                    if last_field(gs, other) is Some {
                        let k = last_field(gs, other)->0;
                        assert(gs[k].0 == other);
                    }
                },
            }
        },
        None => {
            lemma_last_field_at(gs, name, fs.len() as int);
            match last_field(fs, other) {
                Some(j) => {
                    lemma_last_field_at(gs, other, j);
                },
                None => {
                    lemma_last_field_found(gs, other);
                    if last_field(gs, other) is Some {
                        let k = last_field(gs, other)->0;
                        assert(gs[k].0 == other);
                        if k < fs.len() {
                            assert(gs[k] == fs[k]);
                        }
                    }
                },
            }
        },
    }
}

/// The state variables of an agent are laid out in declaration order
/// without overlapping, each at a multiple of its slot size (1, 4 or 8), and
/// the layout ends where the last one ends.
pub proof fn lemma_state_slots_do_not_overlap(states: Seq<StateDecl>, k: int)
    requires
        0 <= k <= states.len(),
        place_state(states, k) is Some,
    ensures
        ({
            let placed = (place_state(states, k)->0).0;
            let end = (place_state(states, k)->0).1;
            &&& placed.len() == k
            &&& k == 0 ==> end == 0
            &&& forall|i: int| 0 <= i < k ==> {
                let ty = state_type(states[i].value);
                let size = slot_size(ty);
                &&& (#[trigger] placed[i]).0 == states[i].name@
                &&& placed[i].2 == ty
                &&& placed[i].1 % size == 0
                &&& placed[i].1 + size <= (if i + 1 < k { placed[i + 1].1 as int } else { end as int })
                &&& (i + 1 == k ==> placed[i].1 + size == end)
            }
        }),
    decreases k,
{
    if k > 0 {
        lemma_state_slots_do_not_overlap(states, k - 1);
        let (prev, off) = place_state(states, k - 1)->0;
        let size = slot_size(state_type(states[k - 1].value));
        lemma_round_up(off, size);
        let placed = (place_state(states, k)->0).0;
        assert(placed.drop_last() == prev);
        assert forall|i: int| 0 <= i < k - 1 implies #[trigger] placed[i] == prev[i] by {
            assert(placed[i] == placed.drop_last()[i]);
        }
    }
}

pub open spec fn machine_rank(t: MachineType) -> int {
    match t {
        MachineType::I32 => 1,
        MachineType::I64 => 2,
        MachineType::F32 => 3,
        MachineType::F64 => 4,
        _ => 0,
    }
}

/// Arithmetic on two numeric machine types is done in one of them, the
/// widest; a byte operand has no arithmetic type.
pub proof fn lemma_common_numeric_widest(a: MachineType, b: MachineType)
    ensures
        (a is I8 || b is I8) <==> common_numeric(a, b) is None,
        common_numeric(a, b) matches Some(c) ==> (c == a || c == b) && machine_rank(c) >= machine_rank(a) && machine_rank(c) >= machine_rank(b),
        common_numeric(a, b) == common_numeric(b, a),
{
}

// ---------------------------------------------------------------------------
// Trimming
// ---------------------------------------------------------------------------
proof fn lemma_trim_start_cut(s: Seq<char>)
    ensures
        exists|a: int| {
            &&& 0 <= a <= s.len()
            &&& trim_start(s) == s.subrange(a, s.len() as int)
            &&& (forall|j: int| 0 <= j < a ==> is_white_space(#[trigger] s[j]))
            &&& (a < s.len() ==> !is_white_space(s[a]))
        },
    decreases s.len(),
{
    if s.len() > 0 && is_white_space(s[0]) {
        let r = s.drop_first();
        lemma_trim_start_cut(r);
        let a = choose|a: int| {
            &&& 0 <= a <= r.len()
            &&& trim_start(r) == r.subrange(a, r.len() as int)
            &&& (forall|j: int| 0 <= j < a ==> is_white_space(#[trigger] r[j]))
            &&& (a < r.len() ==> !is_white_space(r[a]))
        };
        assert(r.subrange(a, r.len() as int) =~= s.subrange(a + 1, s.len() as int));
        assert forall|j: int| 0 <= j < a + 1 implies is_white_space(#[trigger] s[j]) by {
            if j > 0 {
                assert(s[j] == r[j - 1]);
            }
        }
        assert(a + 1 < s.len() ==> s[a + 1] == r[a]);
    } else {
        assert(s.subrange(0, s.len() as int) =~= s);
    }
}

proof fn lemma_trim_end_cut(s: Seq<char>)
    ensures
        exists|b: int| {
            &&& 0 <= b <= s.len()
            &&& trim_end(s) == s.subrange(0, b)
            &&& (forall|j: int| b <= j < s.len() ==> is_white_space(#[trigger] s[j]))
            &&& (b > 0 ==> !is_white_space(s[b - 1]))
        },
    decreases s.len(),
{
    if s.len() > 0 && is_white_space(s.last()) {
        let r = s.drop_last();
        lemma_trim_end_cut(r);
        let b = choose|b: int| {
            &&& 0 <= b <= r.len()
            &&& trim_end(r) == r.subrange(0, b)
            &&& (forall|j: int| b <= j < r.len() ==> is_white_space(#[trigger] r[j]))
            &&& (b > 0 ==> !is_white_space(r[b - 1]))
        };
        assert(r.subrange(0, b) =~= s.subrange(0, b));
        assert forall|j: int| b <= j < s.len() implies is_white_space(#[trigger] s[j]) by {
            if j < r.len() {
                assert(s[j] == r[j]);
            }
        }
        assert(b > 0 ==> s[b - 1] == r[b - 1]);
    } else {
        assert(s.subrange(0, s.len() as int) =~= s);
    }
}

/// Trimming removes white space from both ends and nothing else: the
/// result is a stretch of the text with only white space before and after
/// it, and it neither starts nor ends with white space.
pub proof fn lemma_trim_removes_only_white_space(s: Seq<char>)
    ensures
        exists|a: int, b: int| {
            &&& 0 <= a <= b <= s.len()
            &&& trim(s) == s.subrange(a, b)
            &&& (forall|j: int| 0 <= j < a ==> is_white_space(#[trigger] s[j]))
            &&& (forall|j: int| b <= j < s.len() ==> is_white_space(#[trigger] s[j]))
            &&& (a < b ==> !is_white_space(s[a]) && !is_white_space(s[b - 1]))
        },
{
    lemma_trim_start_cut(s);
    let a = choose|a: int| {
        &&& 0 <= a <= s.len()
        &&& trim_start(s) == s.subrange(a, s.len() as int)
        &&& (forall|j: int| 0 <= j < a ==> is_white_space(#[trigger] s[j]))
        &&& (a < s.len() ==> !is_white_space(s[a]))
    };
    let m = s.subrange(a, s.len() as int);
    lemma_trim_end_cut(m);
    let c = choose|b: int| {
        &&& 0 <= b <= m.len()
        &&& trim_end(m) == m.subrange(0, b)
        &&& (forall|j: int| b <= j < m.len() ==> is_white_space(#[trigger] m[j]))
        &&& (b > 0 ==> !is_white_space(m[b - 1]))
    };
    let b = a + c;
    assert(m.subrange(0, c) =~= s.subrange(a, b));
    assert forall|j: int| b <= j < s.len() implies is_white_space(#[trigger] s[j]) by {
        assert(s[j] == m[j - a]);
    }
    if a < b {
        assert(s[b - 1] == m[c - 1]);
    }
    assert(trim(s) == s.subrange(a, b));
}

// ---------------------------------------------------------------------------
// Comptime control flow and float comparisons
// ---------------------------------------------------------------------------
/// In comptime evaluation an `if` statement runs the block its condition
/// chooses, one level deeper, and one without `else` whose condition is
/// false changes nothing.
#[verifier::rlimit(50)]
pub proof fn lemma_comptime_if_chooses_branch(t: FnTable, cond: SpecExpr, then_block: crate::ast::SpecBlock, env: Env, d: int, mx: int, result: ComptimeValue)
    ensures
        crate::comptime::eval_expr(t, cond, env, d, mx) == Ok::<ComptimeValue, ()>(ComptimeValue::Bool(true)) ==> eval_stmt(
            t,
            SpecStmt::If { condition: cond, then_block, else_block: None },
            env,
            d,
            mx,
            result,
        ) == eval_nested(t, then_block, env, d, mx),
        crate::comptime::eval_expr(t, cond, env, d, mx) == Ok::<ComptimeValue, ()>(ComptimeValue::Bool(false)) ==> eval_stmt(
            t,
            SpecStmt::If { condition: cond, then_block, else_block: None },
            env,
            d,
            mx,
            result,
        ) == Ok::<(CtFlow, Env), ()>((CtFlow::Continue(result), env)),
{
    reveal(eval_stmt);
}

/// In comptime evaluation a `while` loop whose condition is false changes
/// nothing, and a `for` loop over an empty range changes nothing.
pub proof fn lemma_comptime_empty_loops(
    t: FnTable,
    cond: SpecExpr,
    body: crate::ast::SpecBlock,
    var: String,
    iter: SpecExpr,
    lo: int,
    hi: int,
    n: int,
    env: Env,
    d: int,
    mx: int,
    result: ComptimeValue,
)
    requires
        0 <= n < loop_limit(),
    ensures
        crate::comptime::eval_expr(t, cond, env, d, mx) == Ok::<ComptimeValue, ()>(ComptimeValue::Bool(false)) ==> eval_while(
            t,
            SpecStmt::While { condition: cond, body },
            n,
            env,
            d,
            mx,
            result,
        ) == Ok::<(CtFlow, Env), ()>((CtFlow::Continue(result), env)),
        lo >= hi ==> eval_for(t, SpecStmt::For { var, iter, body }, lo, hi, env, d, mx, result)
            == Ok::<(CtFlow, Env), ()>((CtFlow::Continue(result), env)),
{
    reveal(eval_while);
    reveal(eval_for);
}

/// IEEE-754 comparisons of floats given by their bits: `<` is irreflexive
/// and asymmetric, `<=` is `<` or `==`, `==` is symmetric, a NaN equals
/// nothing (itself included) and the two zeros are equal.
pub proof fn lemma_float_comparisons(a: u64, b: u64)
    ensures
        !float_lt(a, a),
        float_lt(a, b) ==> !float_lt(b, a),
        float_le(a, b) <==> (float_lt(a, b) || float_eq(a, b)),
        float_eq(a, b) ==> float_eq(b, a),
        !float_eq(0x7ff8_0000_0000_0000u64, 0x7ff8_0000_0000_0000u64),
        float_eq(0u64, 0x8000_0000_0000_0000u64),
        crate::comptime::float_is_nan(a) ==> !float_lt(a, b) && !float_le(a, b) && !float_eq(a, b),
{
    assert(crate::comptime::float_is_nan(0x7ff8_0000_0000_0000u64)) by (bit_vector);
    assert(crate::comptime::float_key(0u64) == 0) by {
        assert(0u64 & 0x7fff_ffff_ffff_ffffu64 == 0) by (bit_vector);
        assert(0u64 & 0x8000_0000_0000_0000u64 == 0) by (bit_vector);
    }
    assert(crate::comptime::float_key(0x8000_0000_0000_0000u64) == 0) by {
        assert(0x8000_0000_0000_0000u64 & 0x7fff_ffff_ffff_ffffu64 == 0) by (bit_vector);
    }
    assert(!crate::comptime::float_is_nan(0u64)) by (bit_vector);
    assert(!crate::comptime::float_is_nan(0x8000_0000_0000_0000u64)) by (bit_vector);
}

// ---------------------------------------------------------------------------
// Integer and option entry arguments
// ---------------------------------------------------------------------------
/// An integer entry argument written as the decimal text of `n` reads as
/// `n`; `None` reads as no value, and `Some(t)` as the value that the
/// trimmed `t` reads as.
pub proof fn lemma_int_and_option_entry_arguments(n: i64, ty: Type, text: Seq<char>, floats: Map<Seq<char>, u64>)
    ensures
        entry_value(Type::I64, signed_decimal(n as int), floats) == Ok::<ValueView, EntryArgErrorView>(ValueView::Int(n)),
        entry_value(Type::I32, signed_decimal(n as int), floats) == Ok::<ValueView, EntryArgErrorView>(ValueView::Int(n)),
        entry_value(Type::Option(Box::new(ty)), "None"@, floats) == Ok::<ValueView, EntryArgErrorView>(ValueView::Opt(None)),
        entry_value(Type::Option(Box::new(ty)), "Some("@ + text + ")"@, floats) == match entry_value(ty, trim(text), floats) {
            Ok(v) => Ok::<ValueView, EntryArgErrorView>(ValueView::Opt(Some(Box::new(v)))),
            Err(e) => Err(e),
        },
{
    lemma_int_text_reads_decimal(n);
    reveal_strlit("None");
    reveal_strlit("Some(");
    reveal_strlit(")");
    let s = "Some("@ + text + ")"@;
    assert(s.subrange(0, 5) =~= "Some("@);
    assert(s.subrange(5, s.len() as int).subrange(s.len() - 5 - 1, s.len() - 5) =~= ")"@);
    assert(s.subrange(5, s.len() - 1) =~= text);
    assert(s != "None"@) by {
        assert(s[0] != "None"@[0]);
    }
}

// ---------------------------------------------------------------------------
// Lines of a text
// ---------------------------------------------------------------------------
/// The lines of a text hold no line break: every `\n` separates two lines.
pub proof fn lemma_lines_hold_no_line_break(s: Seq<char>)
    ensures
        forall|i: int, j: int| 0 <= i < lines(s).len() && 0 <= j < lines(s)[i].len() ==> lines(s)[i][j] != '\n',
    decreases s.len(),
{
    let nl = seq!['\n'];
    if s.len() > 0 {
        match find(s, nl) {
            None => {
                lemma_find_none(s, nl, 0);
                assert forall|j: int| 0 <= j < s.len() implies s[j] != '\n' by {
                    if s[j] == '\n' {
                        assert(s.subrange(j, j + 1) =~= nl);
                        assert(occurs_at(s, nl, j));
                    }
                }
            },
            Some(k) => {
                lemma_find_some(s, nl, 0);
                let first = s.subrange(0, k);
                let rest = s.subrange(k + 1, s.len() as int);
                lemma_lines_hold_no_line_break(rest);
                assert forall|j: int| 0 <= j < k implies first[j] != '\n' by {
                    if first[j] == '\n' {
                        assert(s.subrange(j, j + 1) =~= nl);
                        assert(occurs_at(s, nl, j));
                    }
                }
                let f = strip_cr(first);
                assert forall|j: int| 0 <= j < f.len() implies f[j] != '\n' by {
                    assert(f[j] == first[j]);
                }
                let ls = lines(s);
                assert(ls == seq![f] + lines(rest));
                assert forall|i: int, j: int| 0 <= i < ls.len() && 0 <= j < ls[i].len() implies ls[i][j] != '\n' by {
                    if i > 0 {
                        assert(ls[i] == lines(rest)[i - 1]);
                    }
                }
            },
        }
    }
}
} // verus!
