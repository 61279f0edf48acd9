//! Running the statements and expressions of a shell handler.
//!
//! A handler runs on its environment (the agent's state and the message's
//! arguments) and may add messages to the queue. Two things come from
//! outside: the value a kernel function returns to `use`, and the results
//! of floating-point arithmetic and of the text of a float. The run takes
//! them as a list of replies, in the order the run asks for them; where it
//! needs one more than it was given it stops and says what it needs, and
//! the caller runs the handler again, from the same environment and queue,
//! with that reply added. Every recursion and loop takes one unit of fuel,
//! and a run that uses up its fuel stops.
use vstd::prelude::*;
use std::collections::VecDeque;
use crate::ast::{Agent, BinaryOp, Block, Expr, File, Literal, MatchArm, MatchBody, Shell, StateDecl, Stmt};
use crate::comptime::{float_le, float_lt, float_is_nan_exec, float_key_exec};
use crate::shell_runtime::{
    KernelSig, KernelSigView, LValueError, LValueStep, ShellValue, UseError, lvalue_path,
    resolve_lvalue_path, resolve_use, use_target,
};
use crate::shell_values::{
    UnaryError, ValueView, copy_fields, copy_value, copy_values, eval_unary, field_insert, fields_view,
    find_field, last_field, match_bindings, pattern_bindings, seq_insert, unary_spec, value_eq,
    value_view, values_equal, values_view,
};
use crate::shell_vm::{AgentRuntime, Event, ShellVm, env_copy, env_get, env_insert, env_map, env_remove, step_finish, vm_wf, write_back};
use crate::text::{str_eq, chars_of, push_str, signed_decimal, signed_decimal_exec, string_from_chars, utf8_len_prefix, utf8_len_seq};

verus! {

// ---------------------------------------------------------------------------
// Outcomes
// ---------------------------------------------------------------------------
/// How a statement ends: normally, or by `break` (and `return`), or by
/// `continue`.
#[derive(Debug, Clone, Copy, PartialEq, Eq, Structural)]
pub enum Flow {
    Normal,
    Break,
    Continue,
}

/// Why a handler fails.
#[derive(Debug)]
pub enum RunError {
    /// A variable that is not bound.
    Undefined(String),
    /// A condition, or an operand of `&&` or `||`, that is not a boolean.
    NotBool,
    /// Operands that the operator does not take.
    BadOperands(BinaryOp),
    /// Division or remainder by zero.
    DivByZero,
    /// `i64::MIN / -1` or `i64::MIN % -1`.
    Overflow,
    /// A shift by less than 0 or more than 63 bits.
    ShiftOutOfRange,
    /// An index that is not an integer.
    IndexNotInt,
    /// An index outside the array, or into something that is not one.
    IndexOutOfBounds(i64),
    /// A field that the value does not have.
    NoField(String),
    /// An assignment below something that is not an array.
    NotAnArray,
    /// An assignment below something that is not a struct.
    NotAStruct,
    /// A call of a function other than `len`.
    UnknownFunction(String),
    /// A call of something other than a name.
    DynamicCall,
    /// `len` with other than one argument.
    LenArity,
    /// `len` of something other than an array or a text.
    LenUnsupported,
    /// A range outside a `for` loop.
    RangeValue,
    /// A lambda expression.
    Lambda,
    /// A message that is not a text.
    SendNotString,
    /// A send with no target.
    EmptyTarget,
    /// A `for` loop over something other than a range or an array.
    NotIterable,
    /// A range whose bounds are not integers.
    RangeNotInt,
    /// A unary operator that has no value.
    Unary(UnaryError),
    /// A `use` that names no kernel function it can call.
    Use(UseError),
    /// An assignment target that names no place.
    Target(LValueError),
    /// Something other than a variable, an index or a field assigned to.
    BadAssignTarget,
    /// A reply of the wrong kind.
    BadReply,
}

/// Why a run stopped before its end.
#[derive(Debug)]
pub enum ExecStop {
    /// The handler failed.
    Fail(RunError),
    /// It needs the value that this kernel function returns for these arguments.
    Kernel { sig: KernelSig, args: Vec<(String, ShellValue)> },
    /// It needs the result of a floating-point operation (`+ - * /`).
    FloatOp { op: BinaryOp, a: u64, b: u64 },
    /// It needs the comparison of two integers as floats (beyond 2^53).
    IntCompare { op: BinaryOp, a: i64, b: i64 },
    /// It needs the text of a float.
    FloatText(u64),
    /// It used up its fuel.
    OutOfFuel,
}

pub ghost enum StopView {
    Fail(RunError),
    Kernel(KernelSigView, Seq<(Seq<char>, ValueView)>),
    FloatOp(BinaryOp, u64, u64),
    IntCompare(BinaryOp, i64, i64),
    FloatText(u64),
    OutOfFuel,
}

impl View for ExecStop {
    type V = StopView;

    open spec fn view(&self) -> StopView {
        match *self {
            ExecStop::Fail(e) => StopView::Fail(e),
            ExecStop::Kernel { sig, args } => StopView::Kernel(sig@, fields_view(args@)),
            ExecStop::FloatOp { op, a, b } => StopView::FloatOp(op, a, b),
            ExecStop::IntCompare { op, a, b } => StopView::IntCompare(op, a, b),
            ExecStop::FloatText(b) => StopView::FloatText(b),
            ExecStop::OutOfFuel => StopView::OutOfFuel,
        }
    }
}

pub type EnvView = Map<Seq<char>, ValueView>;

/// A message in the queue: its target, its message and its arguments.
pub ghost struct EventView {
    pub target: Seq<char>,
    pub message: Seq<char>,
    pub args: Seq<(Seq<char>, ValueView)>,
}

pub open spec fn event_view(e: Event) -> EventView {
    EventView { target: e.target@, message: e.message@, args: fields_view(e.args@) }
}

pub open spec fn queue_view(q: Seq<Event>) -> Seq<EventView> {
    Seq::new(q.len(), |i: int| event_view(q[i]))
}

/// What a run changes besides the environment: the queue, and how many
/// replies it used.
pub ghost struct Io {
    pub queue: Seq<EventView>,
    pub used: nat,
}

pub open spec fn io_of(q: Seq<Event>, used: usize) -> Io {
    Io { queue: queue_view(q), used: used as nat }
}

pub ghost struct Reply {
    pub res: Result<ValueView, StopView>,
    pub used: nat,
}

pub ghost struct TextOut {
    pub res: Result<Seq<char>, StopView>,
    pub used: nat,
}

pub ghost struct ValOut {
    pub res: Result<ValueView, StopView>,
    pub io: Io,
}

pub ghost struct ListOut {
    pub res: Result<Seq<ValueView>, StopView>,
    pub io: Io,
}

pub ghost struct NamedOut {
    pub res: Result<Seq<(Seq<char>, ValueView)>, StopView>,
    pub io: Io,
}

pub ghost struct StmtOut {
    pub res: Result<Flow, StopView>,
    pub env: EnvView,
    pub io: Io,
}

pub open spec fn val_res(r: Result<ShellValue, ExecStop>) -> Result<ValueView, StopView> {
    match r {
        Ok(v) => Ok(v@),
        Err(e) => Err(e@),
    }
}

pub open spec fn text_res(r: Result<String, ExecStop>) -> Result<Seq<char>, StopView> {
    match r {
        Ok(s) => Ok(s@),
        Err(e) => Err(e@),
    }
}

pub open spec fn flow_res(r: Result<Flow, ExecStop>) -> Result<Flow, StopView> {
    match r {
        Ok(f) => Ok(f),
        Err(e) => Err(e@),
    }
}

// ---------------------------------------------------------------------------
// Replies from outside
// ---------------------------------------------------------------------------
/// The next reply, or a stop that asks for it.
pub open spec fn ask(q: StopView, used: nat, ans: Seq<ValueView>) -> Reply {
    if used < ans.len() {
        Reply { res: Ok(ans[used as int]), used: used + 1 }
    } else {
        Reply { res: Err(q), used }
    }
}

fn ask_exec(q: ExecStop, used: &mut usize, ans: &Vec<ShellValue>) -> (r: Result<ShellValue, ExecStop>)
    ensures
        ({
            let o = ask(q@, *old(used) as nat, values_view(ans@));
            o.res == val_res(r) && o.used == *final(used) as nat
        }),
{
    if *used < ans.len() {
        let v = copy_value(&ans[*used]);
        assert(values_view(ans@)[*used as int] == value_view(ans@[*used as int]));
        *used = *used + 1;
        Ok(v)
    } else {
        Err(q)
    }
}

// ---------------------------------------------------------------------------
// Text of a value
// ---------------------------------------------------------------------------
/// The text of a value, as `+` with a text writes it: floats by the
/// reply to `FloatText`, options as `Some(..)` and `None`, arrays as
/// `[a, b]`, structs as `{ x: 1, y: 2 }` in the order of their fields.
pub open spec fn display(v: ValueView, used: nat, ans: Seq<ValueView>) -> TextOut
    decreases v, 0int,
{
    match v {
        ValueView::Int(n) => TextOut { res: Ok(signed_decimal(n as int)), used },
        ValueView::Float(b) => {
            let o = ask(StopView::FloatText(b), used, ans);
            TextOut {
                res: match o.res {
                    Ok(ValueView::Str(s)) => Ok(s),
                    Ok(_) => Err(StopView::Fail(RunError::BadReply)),
                    Err(e) => Err(e),
                },
                used: o.used,
            }
        },
        ValueView::Bool(b) => TextOut { res: Ok(if b { "true"@ } else { "false"@ }), used },
        ValueView::Str(s) => TextOut { res: Ok(s), used },
        ValueView::Opt(None) => TextOut { res: Ok("None"@), used },
        ValueView::Opt(Some(x)) => {
            let o = display(*x, used, ans);
            TextOut {
                res: match o.res {
                    Ok(s) => Ok("Some("@ + s + ")"@),
                    Err(e) => Err(e),
                },
                used: o.used,
            }
        },
        ValueView::Array(xs) => {
            let o = display_items(xs, 0, used, ans, Seq::empty());
            TextOut {
                res: match o.res {
                    Ok(s) => Ok("["@ + s + "]"@),
                    Err(e) => Err(e),
                },
                used: o.used,
            }
        },
        ValueView::Struct(fs) => {
            let o = display_fields(fs, 0, used, ans, Seq::empty());
            TextOut {
                res: match o.res {
                    Ok(s) => Ok("{ "@ + s + " }"@),
                    Err(e) => Err(e),
                },
                used: o.used,
            }
        },
        ValueView::Unit => TextOut { res: Ok("()"@), used },
    }
}

pub open spec fn display_items(xs: Seq<ValueView>, i: int, used: nat, ans: Seq<ValueView>, acc: Seq<char>) -> TextOut
    decreases xs, xs.len() - i,
{
    if 0 <= i < xs.len() {
        let o = display(xs[i], used, ans);
        match o.res {
            Err(e) => TextOut { res: Err(e), used: o.used },
            Ok(s) => display_items(xs, i + 1, o.used, ans, if i == 0 { s } else { acc + ", "@ + s }),
        }
    } else {
        TextOut { res: Ok(acc), used }
    }
}

pub open spec fn display_fields(
    fs: Seq<(Seq<char>, ValueView)>,
    i: int,
    used: nat,
    ans: Seq<ValueView>,
    acc: Seq<char>,
) -> TextOut
    decreases fs, fs.len() - i,
{
    if 0 <= i < fs.len() {
        let o = display(fs[i].1, used, ans);
        match o.res {
            Err(e) => TextOut { res: Err(e), used: o.used },
            Ok(s) => {
                let item = fs[i].0 + ": "@ + s;
                display_fields(fs, i + 1, o.used, ans, if i == 0 { item } else { acc + ", "@ + item })
            },
        }
    } else {
        TextOut { res: Ok(acc), used }
    }
}

fn text_of(s: &str) -> (r: String)
    ensures
        r@ == s@,
{
    let mut r = String::new();
    push_str(&mut r, s);
    assert(r@ =~= s@);
    r
}

/// The text of a value; see `display`.
pub fn display_exec(v: &ShellValue, used: &mut usize, ans: &Vec<ShellValue>) -> (r: Result<String, ExecStop>)
    ensures
        ({
            let o = display(v@, *old(used) as nat, values_view(ans@));
            o.res == text_res(r) && o.used == *final(used) as nat
        }),
    decreases v,
{
    match v {
        ShellValue::Int(n) => Ok(string_from_chars(signed_decimal_exec(*n).as_slice())),
        ShellValue::Float(b) => match ask_exec(ExecStop::FloatText(*b), used, ans) {
            Ok(ShellValue::Str(s)) => Ok(s),
            Ok(_) => Err(ExecStop::Fail(RunError::BadReply)),
            Err(e) => Err(e),
        },
        ShellValue::Bool(b) => if *b {
            Ok(text_of("true"))
        } else {
            Ok(text_of("false"))
        },
        ShellValue::Str(s) => Ok(s.clone()),
        ShellValue::Opt(None) => Ok(text_of("None")),
        ShellValue::Opt(Some(x)) => {
            let s = display_exec(x, used, ans)?;
            let mut t = text_of("Some(");
            push_str(&mut t, s.as_str());
            push_str(&mut t, ")");
            Ok(t)
        },
        ShellValue::Array(xs) => {
            let ghost xv = values_view(xs@);
            assert(v@ == ValueView::Array(xv));
            let ghost u0 = *used as nat;
            let mut acc = String::new();
            assert(acc@ =~= Seq::<char>::empty());
            let mut i: usize = 0;
            while i < xs.len()
                invariant
                    i <= xs@.len(),
                    xv == values_view(xs@),
                    *v == ShellValue::Array(*xs),
                    v@ == ValueView::Array(xv),
                    u0 == *old(used) as nat,
                    i == 0 ==> acc@ == Seq::<char>::empty(),
                    display_items(xv, 0, u0, values_view(ans@), Seq::empty()) == display_items(
                        xv,
                        i as int,
                        *used as nat,
                        values_view(ans@),
                        acc@,
                    ),
                decreases xs@.len() - i,
            {
                assert(decreases_to!(v => xs@[i as int]));
                assert(xv[i as int] == value_view(xs@[i as int]));
                let s = display_exec(&xs[i], used, ans)?;
                if i > 0 {
                    push_str(&mut acc, ", ");
                }
                push_str(&mut acc, s.as_str());
                assert(i == 0 ==> acc@ =~= s@);
                i = i + 1;
            }
            let mut t = text_of("[");
            push_str(&mut t, acc.as_str());
            push_str(&mut t, "]");
            Ok(t)
        },
        ShellValue::Struct(fs) => {
            let ghost fv = fields_view(fs@);
            assert(v@ == ValueView::Struct(fv));
            let ghost u0 = *used as nat;
            let mut acc = String::new();
            assert(acc@ =~= Seq::<char>::empty());
            let mut i: usize = 0;
            while i < fs.len()
                invariant
                    i <= fs@.len(),
                    fv == fields_view(fs@),
                    *v == ShellValue::Struct(*fs),
                    v@ == ValueView::Struct(fv),
                    u0 == *old(used) as nat,
                    i == 0 ==> acc@ == Seq::<char>::empty(),
                    display_fields(fv, 0, u0, values_view(ans@), Seq::empty()) == display_fields(
                        fv,
                        i as int,
                        *used as nat,
                        values_view(ans@),
                        acc@,
                    ),
                decreases fs@.len() - i,
            {
                assert(decreases_to!(v => fs@[i as int].1)) by {
                    assert(decreases_to!(fs => fs@[i as int]));
                }
                assert(fv[i as int] == (fs@[i as int].0@, value_view(fs@[i as int].1)));
                let s = display_exec(&fs[i].1, used, ans)?;
                let mut item = fs[i].0.clone();
                push_str(&mut item, ": ");
                push_str(&mut item, s.as_str());
                if i > 0 {
                    push_str(&mut acc, ", ");
                }
                push_str(&mut acc, item.as_str());
                assert(i == 0 ==> acc@ =~= item@);
                i = i + 1;
            }
            let mut t = text_of("{ ");
            push_str(&mut t, acc.as_str());
            push_str(&mut t, " }");
            Ok(t)
        },
        ShellValue::Unit => Ok(text_of("()")),
    }
}


// ---------------------------------------------------------------------------
// Binary operators
// ---------------------------------------------------------------------------
pub open spec fn fail_reply(e: RunError, used: nat) -> Reply {
    Reply { res: Err(StopView::Fail(e)), used }
}

/// A reply that must be a float.
pub open spec fn float_reply(o: Reply) -> Reply {
    match o.res {
        Ok(ValueView::Float(x)) => o,
        Ok(_) => fail_reply(RunError::BadReply, o.used),
        Err(_) => o,
    }
}

/// A reply that must be a boolean.
pub open spec fn bool_reply(o: Reply) -> Reply {
    match o.res {
        Ok(ValueView::Bool(x)) => o,
        Ok(_) => fail_reply(RunError::BadReply, o.used),
        Err(_) => o,
    }
}

/// The integers that a float holds exactly, where comparing them as floats
/// is comparing them as integers.
pub open spec fn exact_in_float(x: i64) -> bool {
    -9007199254740992 <= x <= 9007199254740992
}

pub open spec fn compare_ints(op: BinaryOp, x: int, y: int) -> bool {
    match op {
        BinaryOp::Lt => x < y,
        BinaryOp::Le => x <= y,
        BinaryOp::Gt => x > y,
        _ => x >= y,
    }
}

/// IEEE-754 comparison of two floats given by their bits: false whenever
/// one is NaN.
pub open spec fn compare_floats(op: BinaryOp, x: u64, y: u64) -> bool {
    match op {
        BinaryOp::Lt => float_lt(x, y),
        BinaryOp::Le => float_le(x, y),
        BinaryOp::Gt => float_lt(y, x),
        _ => float_le(y, x),
    }
}

/// A value joined to a text by `+`: the text of the value, then the text.
pub open spec fn concat_left(a: ValueView, y: Seq<char>, used: nat, ans: Seq<ValueView>) -> Reply {
    let t = display(a, used, ans);
    match t.res {
        Ok(s) => Reply { res: Ok(ValueView::Str(s + y)), used: t.used },
        Err(e) => Reply { res: Err(e), used: t.used },
    }
}

/// A text joined to a value by `+`.
pub open spec fn concat_right(x: Seq<char>, b: ValueView, used: nat, ans: Seq<ValueView>) -> Reply {
    let t = display(b, used, ans);
    match t.res {
        Ok(s) => Reply { res: Ok(ValueView::Str(x + s)), used: t.used },
        Err(e) => Reply { res: Err(e), used: t.used },
    }
}

/// The value of a binary operator:
/// - integer `+ - *` wrap around; `/` and `%` truncate, and fail on zero
///   and on `i64::MIN` by `-1`; the bitwise operators, and shifts by 0 to
///   63 bits;
/// - float `+ - * /` are asked for;
/// - `+` joins texts, and a text with the text of any other value;
/// - `==` and `!=` compare values (see `value_eq`);
/// - `< <= > >=` compare two integers, as floats do (exactly up to 2^53,
///   asked for beyond), or two floats;
/// - `&&` and `||` take booleans, the right one only where the left one
///   does not decide;
/// - `as` gives its left operand.
pub open spec fn binary(op: BinaryOp, a: ValueView, b: ValueView, used: nat, ans: Seq<ValueView>) -> Reply {
    let ok = |v: ValueView| Reply { res: Ok(v), used };
    let bad = fail_reply(RunError::BadOperands(op), used);
    match op {
        BinaryOp::Add => match (a, b) {
            (ValueView::Int(x), ValueView::Int(y)) => ok(ValueView::Int(x.wrapping_add(y))),
            (ValueView::Float(x), ValueView::Float(y)) => float_reply(ask(StopView::FloatOp(op, x, y), used, ans)),
            (ValueView::Str(x), ValueView::Str(y)) => ok(ValueView::Str(x + y)),
            (ValueView::Str(x), _) => concat_right(x, b, used, ans),
            (_, ValueView::Str(y)) => concat_left(a, y, used, ans),
            _ => bad,
        },
        BinaryOp::Sub => match (a, b) {
            (ValueView::Int(x), ValueView::Int(y)) => ok(ValueView::Int(x.wrapping_sub(y))),
            (ValueView::Float(x), ValueView::Float(y)) => float_reply(ask(StopView::FloatOp(op, x, y), used, ans)),
            _ => bad,
        },
        BinaryOp::Mul => match (a, b) {
            (ValueView::Int(x), ValueView::Int(y)) => ok(ValueView::Int(x.wrapping_mul(y))),
            (ValueView::Float(x), ValueView::Float(y)) => float_reply(ask(StopView::FloatOp(op, x, y), used, ans)),
            _ => bad,
        },
        BinaryOp::Div => match (a, b) {
            (ValueView::Int(x), ValueView::Int(y)) => match x.checked_div(y) {
                Some(q) => ok(ValueView::Int(q)),
                None => if y == 0 {
                    fail_reply(RunError::DivByZero, used)
                } else {
                    fail_reply(RunError::Overflow, used)
                },
            },
            (ValueView::Float(x), ValueView::Float(y)) => float_reply(ask(StopView::FloatOp(op, x, y), used, ans)),
            _ => bad,
        },
        BinaryOp::Mod => match (a, b) {
            (ValueView::Int(x), ValueView::Int(y)) => match x.checked_rem(y) {
                Some(q) => ok(ValueView::Int(q)),
                None => if y == 0 {
                    fail_reply(RunError::DivByZero, used)
                } else {
                    fail_reply(RunError::Overflow, used)
                },
            },
            _ => bad,
        },
        BinaryOp::Eq => ok(ValueView::Bool(value_eq(a, b))),
        BinaryOp::Ne => ok(ValueView::Bool(!value_eq(a, b))),
        BinaryOp::Lt | BinaryOp::Le | BinaryOp::Gt | BinaryOp::Ge => match (a, b) {
            (ValueView::Int(x), ValueView::Int(y)) => if exact_in_float(x) && exact_in_float(y) {
                ok(ValueView::Bool(compare_ints(op, x as int, y as int)))
            } else {
                bool_reply(ask(StopView::IntCompare(op, x, y), used, ans))
            },
            (ValueView::Float(x), ValueView::Float(y)) => ok(ValueView::Bool(compare_floats(op, x, y))),
            _ => bad,
        },
        BinaryOp::And => match a {
            ValueView::Bool(false) => ok(ValueView::Bool(false)),
            ValueView::Bool(true) => match b {
                ValueView::Bool(y) => ok(ValueView::Bool(y)),
                _ => fail_reply(RunError::NotBool, used),
            },
            _ => fail_reply(RunError::NotBool, used),
        },
        BinaryOp::Or => match a {
            ValueView::Bool(true) => ok(ValueView::Bool(true)),
            ValueView::Bool(false) => match b {
                ValueView::Bool(y) => ok(ValueView::Bool(y)),
                _ => fail_reply(RunError::NotBool, used),
            },
            _ => fail_reply(RunError::NotBool, used),
        },
        BinaryOp::BitAnd => match (a, b) {
            (ValueView::Int(x), ValueView::Int(y)) => ok(ValueView::Int(x & y)),
            _ => bad,
        },
        BinaryOp::BitOr => match (a, b) {
            (ValueView::Int(x), ValueView::Int(y)) => ok(ValueView::Int(x | y)),
            _ => bad,
        },
        BinaryOp::BitXor => match (a, b) {
            (ValueView::Int(x), ValueView::Int(y)) => ok(ValueView::Int(x ^ y)),
            _ => bad,
        },
        BinaryOp::Shl => match (a, b) {
            (ValueView::Int(x), ValueView::Int(y)) => if 0 <= y < 64 {
                ok(ValueView::Int(((x as u64) << (y as u64)) as i64))
            } else {
                fail_reply(RunError::ShiftOutOfRange, used)
            },
            _ => bad,
        },
        BinaryOp::Shr => match (a, b) {
            (ValueView::Int(x), ValueView::Int(y)) => if 0 <= y < 64 {
                ok(ValueView::Int(x >> (y as u64)))
            } else {
                fail_reply(RunError::ShiftOutOfRange, used)
            },
            _ => bad,
        },
        BinaryOp::As => ok(a),
    }
}

fn float_compare_exec(op: BinaryOp, x: u64, y: u64) -> (r: bool)
    ensures
        r == compare_floats(op, x, y),
{
    if float_is_nan_exec(x) || float_is_nan_exec(y) {
        return false;
    }
    let kx = float_key_exec(x);
    let ky = float_key_exec(y);
    match op {
        BinaryOp::Lt => kx < ky,
        BinaryOp::Le => kx <= ky,
        BinaryOp::Gt => ky < kx,
        _ => ky <= kx,
    }
}

fn reply_float(r: Result<ShellValue, ExecStop>) -> (o: Result<ShellValue, ExecStop>)
    ensures
        match val_res(r) {
            Ok(ValueView::Float(x)) => val_res(o) == val_res(r),
            Ok(_) => val_res(o) == Err::<ValueView, StopView>(StopView::Fail(RunError::BadReply)),
            Err(_) => val_res(o) == val_res(r),
        },
{
    match r {
        Ok(ShellValue::Float(x)) => Ok(ShellValue::Float(x)),
        Ok(_) => Err(ExecStop::Fail(RunError::BadReply)),
        Err(e) => Err(e),
    }
}

fn reply_bool(r: Result<ShellValue, ExecStop>) -> (o: Result<ShellValue, ExecStop>)
    ensures
        match val_res(r) {
            Ok(ValueView::Bool(x)) => val_res(o) == val_res(r),
            Ok(_) => val_res(o) == Err::<ValueView, StopView>(StopView::Fail(RunError::BadReply)),
            Err(_) => val_res(o) == val_res(r),
        },
{
    match r {
        Ok(ShellValue::Bool(x)) => Ok(ShellValue::Bool(x)),
        Ok(_) => Err(ExecStop::Fail(RunError::BadReply)),
        Err(e) => Err(e),
    }
}

/// Applies a binary operator to two values; see `binary`.
pub fn eval_binary(op: BinaryOp, a: ShellValue, b: ShellValue, used: &mut usize, ans: &Vec<ShellValue>) -> (r: Result<ShellValue, ExecStop>)
    ensures
        ({
            let o = binary(op, a@, b@, *old(used) as nat, values_view(ans@));
            o.res == val_res(r) && o.used == *final(used) as nat
        }),
{
    let bad = ExecStop::Fail(RunError::BadOperands(op));
    match op {
        BinaryOp::Add => match (a, b) {
            (ShellValue::Int(x), ShellValue::Int(y)) => Ok(ShellValue::Int(x.wrapping_add(y))),
            (ShellValue::Float(x), ShellValue::Float(y)) => reply_float(ask_exec(ExecStop::FloatOp { op, a: x, b: y }, used, ans)),
            (ShellValue::Str(x), ShellValue::Str(y)) => {
                let mut s = x;
                push_str(&mut s, y.as_str());
                Ok(ShellValue::Str(s))
            },
            (ShellValue::Str(x), b) => {
                let t = display_exec(&b, used, ans)?;
                let mut s = x;
                push_str(&mut s, t.as_str());
                Ok(ShellValue::Str(s))
            },
            (a, ShellValue::Str(y)) => {
                let mut s = display_exec(&a, used, ans)?;
                push_str(&mut s, y.as_str());
                Ok(ShellValue::Str(s))
            },
            _ => Err(bad),
        },
        BinaryOp::Sub => match (a, b) {
            (ShellValue::Int(x), ShellValue::Int(y)) => Ok(ShellValue::Int(x.wrapping_sub(y))),
            (ShellValue::Float(x), ShellValue::Float(y)) => reply_float(ask_exec(ExecStop::FloatOp { op, a: x, b: y }, used, ans)),
            _ => Err(bad),
        },
        BinaryOp::Mul => match (a, b) {
            (ShellValue::Int(x), ShellValue::Int(y)) => Ok(ShellValue::Int(x.wrapping_mul(y))),
            (ShellValue::Float(x), ShellValue::Float(y)) => reply_float(ask_exec(ExecStop::FloatOp { op, a: x, b: y }, used, ans)),
            _ => Err(bad),
        },
        BinaryOp::Div => match (a, b) {
            (ShellValue::Int(x), ShellValue::Int(y)) => match x.checked_div(y) {
                Some(q) => Ok(ShellValue::Int(q)),
                None => if y == 0 {
                    Err(ExecStop::Fail(RunError::DivByZero))
                } else {
                    Err(ExecStop::Fail(RunError::Overflow))
                },
            },
            (ShellValue::Float(x), ShellValue::Float(y)) => reply_float(ask_exec(ExecStop::FloatOp { op, a: x, b: y }, used, ans)),
            _ => Err(bad),
        },
        BinaryOp::Mod => match (a, b) {
            (ShellValue::Int(x), ShellValue::Int(y)) => match x.checked_rem(y) {
                Some(q) => Ok(ShellValue::Int(q)),
                None => if y == 0 {
                    Err(ExecStop::Fail(RunError::DivByZero))
                } else {
                    Err(ExecStop::Fail(RunError::Overflow))
                },
            },
            _ => Err(bad),
        },
        BinaryOp::Eq => Ok(ShellValue::Bool(values_equal(&a, &b))),
        BinaryOp::Ne => Ok(ShellValue::Bool(!values_equal(&a, &b))),
        BinaryOp::Lt | BinaryOp::Le | BinaryOp::Gt | BinaryOp::Ge => match (a, b) {
            (ShellValue::Int(x), ShellValue::Int(y)) => {
                if -9007199254740992 <= x && x <= 9007199254740992 && -9007199254740992 <= y && y <= 9007199254740992 {
                    let c = match op {
                        BinaryOp::Lt => x < y,
                        BinaryOp::Le => x <= y,
                        BinaryOp::Gt => x > y,
                        _ => x >= y,
                    };
                    Ok(ShellValue::Bool(c))
                } else {
                    reply_bool(ask_exec(ExecStop::IntCompare { op, a: x, b: y }, used, ans))
                }
            },
            (ShellValue::Float(x), ShellValue::Float(y)) => Ok(ShellValue::Bool(float_compare_exec(op, x, y))),
            _ => Err(bad),
        },
        BinaryOp::And => match a {
            ShellValue::Bool(false) => Ok(ShellValue::Bool(false)),
            ShellValue::Bool(true) => match b {
                ShellValue::Bool(y) => Ok(ShellValue::Bool(y)),
                _ => Err(ExecStop::Fail(RunError::NotBool)),
            },
            _ => Err(ExecStop::Fail(RunError::NotBool)),
        },
        BinaryOp::Or => match a {
            ShellValue::Bool(true) => Ok(ShellValue::Bool(true)),
            ShellValue::Bool(false) => match b {
                ShellValue::Bool(y) => Ok(ShellValue::Bool(y)),
                _ => Err(ExecStop::Fail(RunError::NotBool)),
            },
            _ => Err(ExecStop::Fail(RunError::NotBool)),
        },
        BinaryOp::BitAnd => match (a, b) {
            (ShellValue::Int(x), ShellValue::Int(y)) => Ok(ShellValue::Int(x & y)),
            _ => Err(bad),
        },
        BinaryOp::BitOr => match (a, b) {
            (ShellValue::Int(x), ShellValue::Int(y)) => Ok(ShellValue::Int(x | y)),
            _ => Err(bad),
        },
        BinaryOp::BitXor => match (a, b) {
            (ShellValue::Int(x), ShellValue::Int(y)) => Ok(ShellValue::Int(x ^ y)),
            _ => Err(bad),
        },
        BinaryOp::Shl => match (a, b) {
            (ShellValue::Int(x), ShellValue::Int(y)) => if 0 <= y && y < 64 {
                Ok(ShellValue::Int(((x as u64) << (y as u64)) as i64))
            } else {
                Err(ExecStop::Fail(RunError::ShiftOutOfRange))
            },
            _ => Err(bad),
        },
        BinaryOp::Shr => match (a, b) {
            (ShellValue::Int(x), ShellValue::Int(y)) => if 0 <= y && y < 64 {
                Ok(ShellValue::Int(x >> (y as u64)))
            } else {
                Err(ExecStop::Fail(RunError::ShiftOutOfRange))
            },
            _ => Err(bad),
        },
        BinaryOp::As => Ok(a),
    }
}


// ---------------------------------------------------------------------------
// Assignment to places
// ---------------------------------------------------------------------------
/// What an assignment does at the end of its path.
#[derive(Debug)]
pub enum Leaf {
    Index(i64),
    Field(String),
}

pub open spec fn set_leaf(v: ValueView, leaf: Leaf, x: ValueView) -> Result<ValueView, RunError> {
    match leaf {
        Leaf::Index(k) => match v {
            ValueView::Array(xs) => if 0 <= k < xs.len() {
                Ok(ValueView::Array(xs.update(k as int, x)))
            } else {
                Err(RunError::IndexOutOfBounds(k))
            },
            _ => Err(RunError::NotAnArray),
        },
        Leaf::Field(name) => match v {
            ValueView::Struct(fs) => Ok(ValueView::Struct(seq_insert(fs, name@, x))),
            _ => Ok(v),
        },
    }
}

/// A value with the place below it at steps `i..` of `path` set: an
/// element set to `x` (in bounds), or a field set to it (on a struct; other
/// values stay as they are).
pub open spec fn set_path(v: ValueView, path: Seq<LValueStep>, i: int, leaf: Leaf, x: ValueView) -> Result<ValueView, RunError>
    decreases path.len() - i,
{
    if i < 0 || i >= path.len() {
        set_leaf(v, leaf, x)
    } else {
        match path[i] {
            LValueStep::Index(k) => match v {
                ValueView::Array(xs) => if 0 <= k < xs.len() {
                    match set_path(xs[k as int], path, i + 1, leaf, x) {
                        Ok(n) => Ok(ValueView::Array(xs.update(k as int, n))),
                        Err(e) => Err(e),
                    }
                } else {
                    Err(RunError::IndexOutOfBounds(k))
                },
                _ => Err(RunError::NotAnArray),
            },
            LValueStep::Field(name) => match v {
                ValueView::Struct(fs) => match last_field(fs, name@) {
                    Some(j) => match set_path(fs[j].1, path, i + 1, leaf, x) {
                        Ok(n) => Ok(ValueView::Struct(fs.update(j, (fs[j].0, n)))),
                        Err(e) => Err(e),
                    },
                    None => Err(RunError::NoField(name)),
                },
                _ => Err(RunError::NotAStruct),
            },
        }
    }
}

/// The environment after setting the place that `target` names below its
/// root variable.
pub open spec fn place_update(env: EnvView, target: Expr, leaf: Leaf, x: ValueView) -> Result<EnvView, RunError> {
    match lvalue_path(target@) {
        Err(le) => Err(RunError::Target(le)),
        Ok((root, path)) => if env.contains_key(root@) {
            match set_path(env[root@], path, 0, leaf, x) {
                Ok(n) => Ok(env.insert(root@, n)),
                Err(e) => Err(e),
            }
        } else {
            Err(RunError::Undefined(root))
        },
    }
}

// ---------------------------------------------------------------------------
// The meaning of statements and expressions
// ---------------------------------------------------------------------------
pub open spec fn vok(v: ValueView, io: Io) -> ValOut {
    ValOut { res: Ok(v), io }
}

pub open spec fn vfail(e: RunError, io: Io) -> ValOut {
    ValOut { res: Err(StopView::Fail(e)), io }
}

pub open spec fn sok(f: Flow, env: EnvView, io: Io) -> StmtOut {
    StmtOut { res: Ok(f), env, io }
}

pub open spec fn sfail(e: RunError, env: EnvView, io: Io) -> StmtOut {
    StmtOut { res: Err(StopView::Fail(e)), env, io }
}

pub open spec fn with_used(io: Io, used: nat) -> Io {
    Io { queue: io.queue, used }
}

pub open spec fn literal_value(l: Literal) -> ValueView {
    match l {
        Literal::Int(n) => ValueView::Int(n),
        Literal::Float(b) => ValueView::Float(b),
        Literal::String(s) => ValueView::Str(s@),
        Literal::Char(c) => ValueView::Int(c as i64),
        Literal::Bool(b) => ValueView::Bool(b),
        Literal::HexColor(s) => ValueView::Str(s@),
    }
}

/// The environment with the bindings of a match arm made, in order.
pub open spec fn bind_all(env: EnvView, bs: Seq<(Seq<char>, ValueView)>) -> EnvView
    decreases bs.len(),
{
    if bs.len() == 0 {
        env
    } else {
        bind_all(env, bs.drop_last()).insert(bs.last().0, bs.last().1)
    }
}

/// The environment after a match arm: each name it bound takes back its
/// value from before, or is removed where it had none.
pub open spec fn unbind(before: EnvView, bs: Seq<(Seq<char>, ValueView)>, after: EnvView) -> EnvView
    decreases bs.len(),
{
    if bs.len() == 0 {
        after
    } else {
        let k = bs.last().0;
        let rest = unbind(before, bs.drop_last(), after);
        if before.contains_key(k) {
            rest.insert(k, before[k])
        } else {
            rest.remove(k)
        }
    }
}

/// The environment after a `for` loop: the loop variable takes back its
/// value from before, or is removed.
pub open spec fn restore(before: EnvView, k: Seq<char>, after: EnvView) -> EnvView {
    if before.contains_key(k) {
        after.insert(k, before[k])
    } else {
        after.remove(k)
    }
}

/// Whether a statement's flow ends its block: any flow but `Normal`, or,
/// in a handler's or a deferred block, only `Break`.
pub open spec fn ends_block(f: Flow, top: bool) -> bool {
    if top {
        f == Flow::Break
    } else {
        f != Flow::Normal
    }
}

/// The value of an expression.
pub open spec fn eval(file: File, f: nat, e: Expr, env: EnvView, io: Io, ans: Seq<ValueView>) -> ValOut
    decreases f, 0int,
{
    if f == 0 {
        ValOut { res: Err(StopView::OutOfFuel), io }
    } else {
        let g = (f - 1) as nat;
        match e {
            Expr::Literal(l) => vok(literal_value(l), io),
            Expr::Ident(n) => if env.contains_key(n@) {
                vok(env[n@], io)
            } else {
                vfail(RunError::Undefined(n), io)
            },
            Expr::Binary { op, left, right } => eval_binary_expr(file, g, op, *left, *right, env, io, ans),
            Expr::Unary { op, expr } => {
                let o = eval(file, g, *expr, env, io, ans);
                match o.res {
                    Ok(v) => match unary_spec(op, v) {
                        Ok(w) => vok(w, o.io),
                        Err(ue) => vfail(RunError::Unary(ue), o.io),
                    },
                    Err(_) => o,
                }
            },
            Expr::Call { func, args } => eval_call(file, g, *func, args@, env, io, ans),
            Expr::Index { expr, index } => eval_index(file, g, *expr, *index, env, io, ans),
            Expr::Field { expr, field } => {
                let o = eval(file, g, *expr, env, io, ans);
                match o.res {
                    Ok(ValueView::Struct(fs)) => match last_field(fs, field@) {
                        Some(j) => vok(fs[j].1, o.io),
                        None => vfail(RunError::NoField(field), o.io),
                    },
                    Ok(_) => vfail(RunError::NoField(field), o.io),
                    Err(_) => o,
                }
            },
            Expr::Use { path, args } => eval_use(file, g, path, args, env, io, ans),
            Expr::Send { message, target, args } => eval_send(file, g, *message, target@, args@, env, io, ans),
            Expr::Lambda { .. } => vfail(RunError::Lambda, io),
            Expr::If { condition, then_expr, else_expr } => eval_if(file, g, *condition, *then_expr, *else_expr, env, io, ans),
            Expr::Match { expr, arms } => eval_match(file, g, *expr, arms@, env, io, ans),
            Expr::Block(b) => block_value(file, g, b.statements@, 0, env, io, ans, ValueView::Unit),
            Expr::SomeOf(x) => {
                let o = eval(file, g, *x, env, io, ans);
                match o.res {
                    Ok(v) => vok(ValueView::Opt(Some(Box::new(v))), o.io),
                    Err(_) => o,
                }
            },
            Expr::NoneValue => vok(ValueView::Opt(None), io),
            Expr::Array(es) => {
                let o = eval_list(file, g, es@, 0, env, io, ans, Seq::empty());
                match o.res {
                    Ok(vs) => vok(ValueView::Array(vs), o.io),
                    Err(s) => ValOut { res: Err(s), io: o.io },
                }
            },
            Expr::Struct { name, fields } => {
                let o = eval_named(file, g, fields@, 0, false, env, io, ans, Seq::empty());
                match o.res {
                    Ok(fs) => vok(ValueView::Struct(fs), o.io),
                    Err(s) => ValOut { res: Err(s), io: o.io },
                }
            },
            Expr::Copy(x) => eval(file, g, *x, env, io, ans),
            Expr::Range { .. } => vfail(RunError::RangeValue, io),
            Expr::Cast { expr, .. } => eval(file, g, *expr, env, io, ans),
        }
    }
}

pub open spec fn eval_binary_expr(file: File, f: nat, op: BinaryOp, left: Expr, right: Expr, env: EnvView, io: Io, ans: Seq<ValueView>) -> ValOut
    decreases f, 2int,
{
    let o1 = eval(file, f, left, env, io, ans);
    match o1.res {
        Err(_) => o1,
        Ok(a) => {
            let o2 = eval(file, f, right, env, o1.io, ans);
            match o2.res {
                Err(_) => o2,
                Ok(b) => {
                    let r = binary(op, a, b, o2.io.used, ans);
                    ValOut { res: r.res, io: with_used(o2.io, r.used) }
                },
            }
        },
    }
}

/// `len(x)`, the only function a shell can call: the length of an array,
/// or of a text in UTF-8 bytes.
pub open spec fn eval_call(file: File, f: nat, func: Expr, args: Seq<Expr>, env: EnvView, io: Io, ans: Seq<ValueView>) -> ValOut
    decreases f, 2int,
{
    match func {
        Expr::Ident(name) => if name@ == "len"@ {
            if args.len() != 1 {
                vfail(RunError::LenArity, io)
            } else {
                let o = eval(file, f, args[0], env, io, ans);
                match o.res {
                    Ok(ValueView::Array(xs)) => vok(ValueView::Int(xs.len() as i64), o.io),
                    Ok(ValueView::Str(s)) => vok(ValueView::Int(utf8_len_seq(s) as i64), o.io),
                    Ok(_) => vfail(RunError::LenUnsupported, o.io),
                    Err(_) => o,
                }
            }
        } else {
            vfail(RunError::UnknownFunction(name), io)
        },
        _ => vfail(RunError::DynamicCall, io),
    }
}

pub open spec fn eval_index(file: File, f: nat, expr: Expr, index: Expr, env: EnvView, io: Io, ans: Seq<ValueView>) -> ValOut
    decreases f, 2int,
{
    let o1 = eval(file, f, expr, env, io, ans);
    match o1.res {
        Err(_) => o1,
        Ok(a) => {
            let o2 = eval(file, f, index, env, o1.io, ans);
            match o2.res {
                Err(_) => o2,
                Ok(ValueView::Int(k)) => match a {
                    ValueView::Array(xs) => if 0 <= k < xs.len() {
                        vok(xs[k as int], o2.io)
                    } else {
                        vfail(RunError::IndexOutOfBounds(k), o2.io)
                    },
                    _ => vfail(RunError::IndexOutOfBounds(k), o2.io),
                },
                Ok(_) => vfail(RunError::IndexNotInt, o2.io),
            }
        },
    }
}

/// `use kernel.function(args)`: the function is looked up first, then the
/// arguments are evaluated in the order written (each one kept, as the call
/// hands them over), and the value is asked for.
pub open spec fn eval_use(file: File, f: nat, path: Vec<String>, args: Vec<(String, Expr)>, env: EnvView, io: Io, ans: Seq<ValueView>) -> ValOut
    decreases f, 2int,
{
    match use_target(file, path@, args@) {
        Err(ue) => vfail(RunError::Use(ue), io),
        Ok(sig) => {
            let o = eval_named(file, f, args@, 0, true, env, io, ans, Seq::empty());
            match o.res {
                Err(s) => ValOut { res: Err(s), io: o.io },
                Ok(fs) => {
                    let r = ask(StopView::Kernel(sig, fs), o.io.used, ans);
                    ValOut { res: r.res, io: with_used(o.io, r.used) }
                },
            }
        },
    }
}

pub open spec fn push_event(io: Io, target: Seq<char>, message: Seq<char>, args: Seq<(Seq<char>, ValueView)>) -> Io {
    Io { queue: io.queue.push(EventView { target, message, args }), used: io.used }
}

/// A send as an expression: its target is the last name of the path; its
/// value is `()`.
pub open spec fn eval_send(file: File, f: nat, message: Expr, target: Seq<String>, args: Seq<(String, Expr)>, env: EnvView, io: Io, ans: Seq<ValueView>) -> ValOut
    decreases f, 2int,
{
    let o = eval(file, f, message, env, io, ans);
    match o.res {
        Err(_) => o,
        Ok(ValueView::Str(m)) => if target.len() == 0 {
            vfail(RunError::EmptyTarget, o.io)
        } else {
            let n = eval_named(file, f, args, 0, false, env, o.io, ans, Seq::empty());
            match n.res {
                Err(s) => ValOut { res: Err(s), io: n.io },
                Ok(fs) => vok(ValueView::Unit, push_event(n.io, target.last()@, m, fs)),
            }
        },
        Ok(_) => vfail(RunError::SendNotString, o.io),
    }
}

pub open spec fn eval_if(file: File, f: nat, cond: Expr, then_expr: Expr, else_expr: Expr, env: EnvView, io: Io, ans: Seq<ValueView>) -> ValOut
    decreases f, 2int,
{
    let o = eval(file, f, cond, env, io, ans);
    match o.res {
        Err(_) => o,
        Ok(ValueView::Bool(b)) => if b {
            eval(file, f, then_expr, env, o.io, ans)
        } else {
            eval(file, f, else_expr, env, o.io, ans)
        },
        Ok(_) => vfail(RunError::NotBool, o.io),
    }
}

pub open spec fn eval_match(file: File, f: nat, expr: Expr, arms: Seq<MatchArm>, env: EnvView, io: Io, ans: Seq<ValueView>) -> ValOut
    decreases f, 2int,
{
    let o = eval(file, f, expr, env, io, ans);
    match o.res {
        Err(_) => o,
        Ok(v) => arms_value(file, f, arms, 0, v, env, o.io, ans),
    }
}

/// The values of a list of expressions, from `i` on, after `acc`.
pub open spec fn eval_list(file: File, f: nat, es: Seq<Expr>, i: int, env: EnvView, io: Io, ans: Seq<ValueView>, acc: Seq<ValueView>) -> ListOut
    decreases f, 1int,
{
    if i < 0 || i >= es.len() {
        ListOut { res: Ok(acc), io }
    } else if f == 0 {
        ListOut { res: Err(StopView::OutOfFuel), io }
    } else {
        let o = eval(file, (f - 1) as nat, es[i], env, io, ans);
        match o.res {
            Err(s) => ListOut { res: Err(s), io: o.io },
            Ok(v) => eval_list(file, (f - 1) as nat, es, i + 1, env, o.io, ans, acc.push(v)),
        }
    }
}

/// One more named value: added at the end (`keep_all`), or set.
pub open spec fn named_step(acc: Seq<(Seq<char>, ValueView)>, name: Seq<char>, v: ValueView, keep_all: bool) -> Seq<(Seq<char>, ValueView)> {
    if keep_all {
        acc.push((name, v))
    } else {
        seq_insert(acc, name, v)
    }
}

/// The values of named expressions, from `i` on, after `acc`: all of them
/// in order (`keep_all`), or set into `acc` (a later name replaces an
/// earlier one).
pub open spec fn eval_named(
    file: File,
    f: nat,
    args: Seq<(String, Expr)>,
    i: int,
    keep_all: bool,
    env: EnvView,
    io: Io,
    ans: Seq<ValueView>,
    acc: Seq<(Seq<char>, ValueView)>,
) -> NamedOut
    decreases f, 1int,
{
    if i < 0 || i >= args.len() {
        NamedOut { res: Ok(acc), io }
    } else if f == 0 {
        NamedOut { res: Err(StopView::OutOfFuel), io }
    } else {
        let o = eval(file, (f - 1) as nat, args[i].1, env, io, ans);
        match o.res {
            Err(s) => NamedOut { res: Err(s), io: o.io },
            Ok(v) => eval_named(file, (f - 1) as nat, args, i + 1, keep_all, env, o.io, ans, named_step(acc, args[i].0@, v, keep_all)),
        }
    }
}

/// A match as an expression: the first arm whose pattern matches runs with
/// its bindings; an expression arm gives its value, a block arm runs as a
/// block of its own and gives `()`; no arm gives `()`.
pub open spec fn arms_value(file: File, f: nat, arms: Seq<MatchArm>, i: int, v: ValueView, env: EnvView, io: Io, ans: Seq<ValueView>) -> ValOut
    decreases f, 1int,
{
    if i < 0 || i >= arms.len() {
        vok(ValueView::Unit, io)
    } else if f == 0 {
        ValOut { res: Err(StopView::OutOfFuel), io }
    } else {
        let g = (f - 1) as nat;
        match pattern_bindings(arms[i].pattern, v) {
            None => arms_value(file, g, arms, i + 1, v, env, io, ans),
            Some(bs) => {
                let env2 = bind_all(env, bs);
                match arms[i].body {
                    MatchBody::Expr(e) => eval(file, g, e, env2, io, ans),
                    MatchBody::Block(b) => {
                        let o = block_run(file, g, b.statements@, 0, Seq::empty(), true, env2, io, ans);
                        match o.res {
                            Ok(_) => vok(ValueView::Unit, o.io),
                            Err(s) => ValOut { res: Err(s), io: o.io },
                        }
                    },
                }
            },
        }
    }
}

/// A block as an expression, in a copy of the environment: its value is
/// that of its last expression statement, `()` if it has none.
pub open spec fn block_value(file: File, f: nat, stmts: Seq<Stmt>, i: int, env: EnvView, io: Io, ans: Seq<ValueView>, last: ValueView) -> ValOut
    decreases f, 1int,
{
    if i < 0 || i >= stmts.len() {
        vok(last, io)
    } else if f == 0 {
        ValOut { res: Err(StopView::OutOfFuel), io }
    } else {
        let g = (f - 1) as nat;
        match stmts[i] {
            Stmt::Expr(e) => {
                let o = eval(file, g, e, env, io, ans);
                match o.res {
                    Err(_) => o,
                    Ok(v) => block_value(file, g, stmts, i + 1, env, o.io, ans, v),
                }
            },
            _ => {
                let o = exec(file, g, stmts[i], env, io, ans);
                match o.res {
                    Err(s) => ValOut { res: Err(s), io: o.io },
                    Ok(_) => block_value(file, g, stmts, i + 1, o.env, o.io, ans, last),
                }
            },
        }
    }
}

/// What a statement does.
pub open spec fn exec(file: File, f: nat, s: Stmt, env: EnvView, io: Io, ans: Seq<ValueView>) -> StmtOut
    decreases f, 0int,
{
    if f == 0 {
        StmtOut { res: Err(StopView::OutOfFuel), env, io }
    } else {
        let g = (f - 1) as nat;
        match s {
            Stmt::Let { name, value, .. } => {
                let o = eval(file, g, value, env, io, ans);
                match o.res {
                    Ok(v) => sok(Flow::Normal, env.insert(name@, v), o.io),
                    Err(s) => StmtOut { res: Err(s), env, io: o.io },
                }
            },
            Stmt::Assign { target, value } => exec_assign(file, g, target, value, env, io, ans),
            Stmt::If { condition, then_block, else_block } => exec_if(file, g, condition, then_block, else_block, env, io, ans),
            Stmt::For { var, iter, body } => exec_for(file, g, var, iter, body, env, io, ans),
            Stmt::While { condition, body } => while_run(file, g, condition, body, env, io, ans),
            Stmt::Loop(body) => loop_run(file, g, body, env, io, ans),
            Stmt::Break => sok(Flow::Break, env, io),
            Stmt::Continue => sok(Flow::Continue, env, io),
            Stmt::Return(_) => sok(Flow::Break, env, io),
            Stmt::Match { expr, arms } => exec_match(file, g, expr, arms@, env, io, ans),
            Stmt::Defer(_) => sok(Flow::Normal, env, io),
            Stmt::Send { message, target, args } => exec_send(file, g, message, target, args@, env, io, ans),
            Stmt::Expr(e) => {
                let o = eval(file, g, e, env, io, ans);
                match o.res {
                    Ok(_) => sok(Flow::Normal, env, o.io),
                    Err(s) => StmtOut { res: Err(s), env, io: o.io },
                }
            },
        }
    }
}

/// An assignment: the value first; for an index, the index next; then the
/// place is set (see `place_update`).
pub open spec fn exec_assign(file: File, f: nat, target: Expr, value: Expr, env: EnvView, io: Io, ans: Seq<ValueView>) -> StmtOut
    decreases f, 2int,
{
    let o = eval(file, f, value, env, io, ans);
    match o.res {
        Err(s) => StmtOut { res: Err(s), env, io: o.io },
        Ok(v) => match target {
            Expr::Ident(n) => sok(Flow::Normal, env.insert(n@, v), o.io),
            Expr::Index { expr, index } => {
                let o2 = eval(file, f, *index, env, o.io, ans);
                match o2.res {
                    Err(s) => StmtOut { res: Err(s), env, io: o2.io },
                    Ok(ValueView::Int(k)) => match place_update(env, *expr, Leaf::Index(k), v) {
                        Ok(env2) => sok(Flow::Normal, env2, o2.io),
                        Err(e) => sfail(e, env, o2.io),
                    },
                    Ok(_) => sfail(RunError::IndexNotInt, env, o2.io),
                }
            },
            Expr::Field { expr, field } => match place_update(env, *expr, Leaf::Field(field), v) {
                Ok(env2) => sok(Flow::Normal, env2, o.io),
                Err(e) => sfail(e, env, o.io),
            },
            _ => sfail(RunError::BadAssignTarget, env, o.io),
        },
    }
}

pub open spec fn exec_if(file: File, f: nat, cond: Expr, then_block: Block, else_block: Option<Block>, env: EnvView, io: Io, ans: Seq<ValueView>) -> StmtOut
    decreases f, 2int,
{
    let o = eval(file, f, cond, env, io, ans);
    match o.res {
        Err(s) => StmtOut { res: Err(s), env, io: o.io },
        Ok(ValueView::Bool(b)) => if b {
            block_run(file, f, then_block.statements@, 0, Seq::empty(), false, env, o.io, ans)
        } else {
            match else_block {
                Some(eb) => block_run(file, f, eb.statements@, 0, Seq::empty(), false, env, o.io, ans),
                None => sok(Flow::Normal, env, o.io),
            }
        },
        Ok(_) => sfail(RunError::NotBool, env, o.io),
    }
}

/// A `for` loop over a range (its bounds evaluated first, an inclusive end
/// one further, wrapping) or over the elements of an array; the loop
/// variable takes back its earlier value after the loop.
pub open spec fn exec_for(file: File, f: nat, var: String, iter: Expr, body: Block, env: EnvView, io: Io, ans: Seq<ValueView>) -> StmtOut
    decreases f, 2int,
{
    match iter {
        Expr::Range { start, end, inclusive } => {
            let o1 = eval(file, f, *start, env, io, ans);
            match o1.res {
                Err(s) => StmtOut { res: Err(s), env, io: o1.io },
                Ok(a) => {
                    let o2 = eval(file, f, *end, env, o1.io, ans);
                    match o2.res {
                        Err(s) => StmtOut { res: Err(s), env, io: o2.io },
                        Ok(b) => match (a, b) {
                            (ValueView::Int(x), ValueView::Int(y)) => {
                                let stop = if inclusive { y.wrapping_add(1) } else { y };
                                let o = range_run(file, f, var, body, x as int, stop as int, env, o2.io, ans);
                                match o.res {
                                    Ok(_) => sok(Flow::Normal, restore(env, var@, o.env), o.io),
                                    Err(_) => o,
                                }
                            },
                            _ => sfail(RunError::RangeNotInt, env, o2.io),
                        },
                    }
                },
            }
        },
        _ => {
            let o1 = eval(file, f, iter, env, io, ans);
            match o1.res {
                Err(s) => StmtOut { res: Err(s), env, io: o1.io },
                Ok(ValueView::Array(items)) => {
                    let o = items_run(file, f, var, body, items, 0, env, o1.io, ans);
                    match o.res {
                        Ok(_) => sok(Flow::Normal, restore(env, var@, o.env), o.io),
                        Err(_) => o,
                    }
                },
                Ok(_) => sfail(RunError::NotIterable, env, o1.io),
            }
        },
    }
}

/// The iterations of a range loop from `i` to `stop`.
pub open spec fn range_run(file: File, f: nat, var: String, body: Block, i: int, stop: int, env: EnvView, io: Io, ans: Seq<ValueView>) -> StmtOut
    decreases f, 1int,
{
    if i >= stop {
        sok(Flow::Normal, env, io)
    } else if f == 0 {
        StmtOut { res: Err(StopView::OutOfFuel), env, io }
    } else {
        let g = (f - 1) as nat;
        let o = block_run(file, g, body.statements@, 0, Seq::empty(), false, env.insert(var@, ValueView::Int(i as i64)), io, ans);
        match o.res {
            Err(_) => o,
            Ok(Flow::Break) => sok(Flow::Normal, o.env, o.io),
            Ok(_) => range_run(file, g, var, body, i + 1, stop, o.env, o.io, ans),
        }
    }
}

/// The iterations of an array loop from element `i` on.
pub open spec fn items_run(file: File, f: nat, var: String, body: Block, items: Seq<ValueView>, i: int, env: EnvView, io: Io, ans: Seq<ValueView>) -> StmtOut
    decreases f, 1int,
{
    if i < 0 || i >= items.len() {
        sok(Flow::Normal, env, io)
    } else if f == 0 {
        StmtOut { res: Err(StopView::OutOfFuel), env, io }
    } else {
        let g = (f - 1) as nat;
        let o = block_run(file, g, body.statements@, 0, Seq::empty(), false, env.insert(var@, items[i]), io, ans);
        match o.res {
            Err(_) => o,
            Ok(Flow::Break) => sok(Flow::Normal, o.env, o.io),
            Ok(_) => items_run(file, g, var, body, items, i + 1, o.env, o.io, ans),
        }
    }
}

/// A `while` loop.
pub open spec fn while_run(file: File, f: nat, cond: Expr, body: Block, env: EnvView, io: Io, ans: Seq<ValueView>) -> StmtOut
    decreases f, 1int,
{
    if f == 0 {
        StmtOut { res: Err(StopView::OutOfFuel), env, io }
    } else {
        let g = (f - 1) as nat;
        let c = eval(file, g, cond, env, io, ans);
        match c.res {
            Err(s) => StmtOut { res: Err(s), env, io: c.io },
            Ok(ValueView::Bool(false)) => sok(Flow::Normal, env, c.io),
            Ok(ValueView::Bool(true)) => {
                let o = block_run(file, g, body.statements@, 0, Seq::empty(), false, env, c.io, ans);
                match o.res {
                    Err(_) => o,
                    Ok(Flow::Break) => sok(Flow::Normal, o.env, o.io),
                    Ok(_) => while_run(file, g, cond, body, o.env, o.io, ans),
                }
            },
            Ok(_) => sfail(RunError::NotBool, env, c.io),
        }
    }
}

/// A `loop`.
pub open spec fn loop_run(file: File, f: nat, body: Block, env: EnvView, io: Io, ans: Seq<ValueView>) -> StmtOut
    decreases f, 1int,
{
    if f == 0 {
        StmtOut { res: Err(StopView::OutOfFuel), env, io }
    } else {
        let g = (f - 1) as nat;
        let o = block_run(file, g, body.statements@, 0, Seq::empty(), false, env, io, ans);
        match o.res {
            Err(_) => o,
            Ok(Flow::Break) => sok(Flow::Normal, o.env, o.io),
            Ok(_) => loop_run(file, g, body, o.env, o.io, ans),
        }
    }
}

pub open spec fn exec_match(file: File, f: nat, expr: Expr, arms: Seq<MatchArm>, env: EnvView, io: Io, ans: Seq<ValueView>) -> StmtOut
    decreases f, 2int,
{
    let o = eval(file, f, expr, env, io, ans);
    match o.res {
        Err(s) => StmtOut { res: Err(s), env, io: o.io },
        Ok(v) => arms_run(file, f, arms, 0, v, env, o.io, ans),
    }
}

/// A match as a statement: the first arm whose pattern matches runs with
/// its bindings, which are undone afterwards; its flow is the arm's.
pub open spec fn arms_run(file: File, f: nat, arms: Seq<MatchArm>, i: int, v: ValueView, env: EnvView, io: Io, ans: Seq<ValueView>) -> StmtOut
    decreases f, 1int,
{
    if i < 0 || i >= arms.len() {
        sok(Flow::Normal, env, io)
    } else if f == 0 {
        StmtOut { res: Err(StopView::OutOfFuel), env, io }
    } else {
        let g = (f - 1) as nat;
        match pattern_bindings(arms[i].pattern, v) {
            None => arms_run(file, g, arms, i + 1, v, env, io, ans),
            Some(bs) => {
                let env2 = bind_all(env, bs);
                match arms[i].body {
                    MatchBody::Expr(e) => {
                        let o = eval(file, g, e, env2, io, ans);
                        match o.res {
                            Err(s) => StmtOut { res: Err(s), env: env2, io: o.io },
                            Ok(_) => sok(Flow::Normal, unbind(env, bs, env2), o.io),
                        }
                    },
                    MatchBody::Block(b) => {
                        let o = block_run(file, g, b.statements@, 0, Seq::empty(), false, env2, io, ans);
                        match o.res {
                            Err(_) => o,
                            Ok(fl) => sok(fl, unbind(env, bs, o.env), o.io),
                        }
                    },
                }
            },
        }
    }
}

/// A send as a statement: the message first, which must be a text, then
/// the arguments; the message goes to the end of the queue.
pub open spec fn exec_send(file: File, f: nat, message: Expr, target: String, args: Seq<(String, Expr)>, env: EnvView, io: Io, ans: Seq<ValueView>) -> StmtOut
    decreases f, 2int,
{
    let o = eval(file, f, message, env, io, ans);
    match o.res {
        Err(s) => StmtOut { res: Err(s), env, io: o.io },
        Ok(ValueView::Str(m)) => {
            let n = eval_named(file, f, args, 0, false, env, o.io, ans, Seq::empty());
            match n.res {
                Err(s) => StmtOut { res: Err(s), env, io: n.io },
                Ok(fs) => sok(Flow::Normal, env, push_event(n.io, target@, m, fs)),
            }
        },
        Ok(_) => sfail(RunError::SendNotString, env, o.io),
    }
}

/// The statements of a block from `i` on: deferred blocks are kept (by
/// their index) and skipped; a failure ends the block at once; a flow that
/// ends the block (see `ends_block`) stops it; then the deferred blocks run,
/// the last one first.
pub open spec fn block_run(
    file: File,
    f: nat,
    stmts: Seq<Stmt>,
    i: int,
    defers: Seq<usize>,
    top: bool,
    env: EnvView,
    io: Io,
    ans: Seq<ValueView>,
) -> StmtOut
    decreases f, 1int,
{
    if i < 0 || i >= stmts.len() {
        defers_run(file, f, stmts, defers, defers.len() as int, Flow::Normal, env, io, ans)
    } else if f == 0 {
        StmtOut { res: Err(StopView::OutOfFuel), env, io }
    } else {
        let g = (f - 1) as nat;
        match stmts[i] {
            Stmt::Defer(_) => block_run(file, g, stmts, i + 1, defers.push(i as usize), top, env, io, ans),
            _ => {
                let o = exec(file, g, stmts[i], env, io, ans);
                match o.res {
                    Err(_) => o,
                    Ok(fl) => if ends_block(fl, top) {
                        defers_run(file, g, stmts, defers, defers.len() as int, fl, o.env, o.io, ans)
                    } else {
                        block_run(file, g, stmts, i + 1, defers, top, o.env, o.io, ans)
                    },
                }
            },
        }
    }
}

/// The deferred blocks `defers[..k]`, the last one first, each as a block
/// of its own; then the block ends with `flow`.
pub open spec fn defers_run(
    file: File,
    f: nat,
    stmts: Seq<Stmt>,
    defers: Seq<usize>,
    k: int,
    flow: Flow,
    env: EnvView,
    io: Io,
    ans: Seq<ValueView>,
) -> StmtOut
    decreases f, 0int,
{
    if k <= 0 || k > defers.len() {
        sok(flow, env, io)
    } else if f == 0 {
        StmtOut { res: Err(StopView::OutOfFuel), env, io }
    } else {
        let g = (f - 1) as nat;
        match stmts[defers[k - 1] as int] {
            Stmt::Defer(b) => {
                let o = block_run(file, g, b.statements@, 0, Seq::empty(), true, env, io, ans);
                match o.res {
                    Err(_) => o,
                    Ok(_) => defers_run(file, g, stmts, defers, k - 1, flow, o.env, o.io, ans),
                }
            },
            _ => defers_run(file, g, stmts, defers, k - 1, flow, env, io, ans),
        }
    }
}


// ---------------------------------------------------------------------------
// Running statements and expressions
// ---------------------------------------------------------------------------
pub open spec fn list_res(r: Result<Vec<ShellValue>, ExecStop>) -> Result<Seq<ValueView>, StopView> {
    match r {
        Ok(v) => Ok(values_view(v@)),
        Err(e) => Err(e@),
    }
}

pub open spec fn named_res(r: Result<Vec<(String, ShellValue)>, ExecStop>) -> Result<Seq<(Seq<char>, ValueView)>, StopView> {
    match r {
        Ok(v) => Ok(fields_view(v@)),
        Err(e) => Err(e@),
    }
}

fn literal_exec(l: &Literal) -> (r: ShellValue)
    ensures
        r@ == literal_value(*l),
{
    match l {
        Literal::Int(n) => ShellValue::Int(*n),
        Literal::Float(b) => ShellValue::Float(*b),
        Literal::String(s) => ShellValue::Str(s.clone()),
        Literal::Char(c) => ShellValue::Int((*c as u32) as i64),
        Literal::Bool(b) => ShellValue::Bool(*b),
        Literal::HexColor(s) => ShellValue::Str(s.clone()),
    }
}

/// Evaluates an expression; see `eval`.
pub fn eval_expr(file: &File, e: &Expr, env: &Vec<(String, ShellValue)>, queue: &mut VecDeque<Event>, used: &mut usize, ans: &Vec<ShellValue>, fuel: u64) -> (r: Result<ShellValue, ExecStop>)
    ensures
        ({
            let o = eval(*file, fuel as nat, *e, env_map(env@), io_of(old(queue)@, *old(used)), values_view(ans@));
            o.res == val_res(r) && o.io == io_of(final(queue)@, *final(used))
        }),
    decreases fuel, 0int,
{
    if fuel == 0 {
        return Err(ExecStop::OutOfFuel);
    }
    let g = fuel - 1;
    match e {
        Expr::Literal(l) => Ok(literal_exec(l)),
        Expr::Ident(n) => match env_get(env, n.as_str()) {
            Some(v) => Ok(v),
            None => Err(ExecStop::Fail(RunError::Undefined(n.clone()))),
        },
        Expr::Binary { op, left, right } => eval_binary_expr_exec(file, *op, left, right, env, queue, used, ans, g),
        Expr::Unary { op, expr } => {
            let v = eval_expr(file, expr, env, queue, used, ans, g)?;
            match eval_unary(*op, v) {
                Ok(w) => Ok(w),
                Err(ue) => Err(ExecStop::Fail(RunError::Unary(ue))),
            }
        },
        Expr::Call { func, args } => eval_call_exec(file, func, args, env, queue, used, ans, g),
        Expr::Index { expr, index } => eval_index_exec(file, expr, index, env, queue, used, ans, g),
        Expr::Field { expr, field } => {
            let v = eval_expr(file, expr, env, queue, used, ans, g)?;
            match v {
                ShellValue::Struct(fs) => match find_field(&fs, field.as_str()) {
                    Some(j) => {
                        assert(v@ == ValueView::Struct(fields_view(fs@)));
                        assert(fields_view(fs@)[j as int] == (fs@[j as int].0@, value_view(fs@[j as int].1)));
                        Ok(copy_value(&fs[j].1))
                    },
                    None => Err(ExecStop::Fail(RunError::NoField(field.clone()))),
                },
                _ => Err(ExecStop::Fail(RunError::NoField(field.clone()))),
            }
        },
        Expr::Use { path, args } => eval_use_exec(file, path, args, env, queue, used, ans, g),
        Expr::Send { message, target, args } => eval_send_exec(file, message, target, args, env, queue, used, ans, g),
        Expr::Lambda { .. } => Err(ExecStop::Fail(RunError::Lambda)),
        Expr::If { condition, then_expr, else_expr } => eval_if_exec(file, condition, then_expr, else_expr, env, queue, used, ans, g),
        Expr::Match { expr, arms } => eval_match_exec(file, expr, arms, env, queue, used, ans, g),
        Expr::Block(b) => block_value_exec(file, &b.statements, env, queue, used, ans, g),
        Expr::SomeOf(x) => {
            let v = eval_expr(file, x, env, queue, used, ans, g)?;
            Ok(ShellValue::Opt(Some(Box::new(v))))
        },
        Expr::NoneValue => Ok(ShellValue::Opt(None)),
        Expr::Array(es) => {
            let vs = eval_list_exec(file, es, env, queue, used, ans, g)?;
            Ok(ShellValue::Array(vs))
        },
        Expr::Struct { name: _, fields } => {
            let fs = eval_named_exec(file, fields, false, env, queue, used, ans, g)?;
            Ok(ShellValue::Struct(fs))
        },
        Expr::Copy(x) => eval_expr(file, x, env, queue, used, ans, g),
        Expr::Range { .. } => Err(ExecStop::Fail(RunError::RangeValue)),
        Expr::Cast { expr, .. } => eval_expr(file, expr, env, queue, used, ans, g),
    }
}

fn eval_binary_expr_exec(file: &File, op: BinaryOp, left: &Expr, right: &Expr, env: &Vec<(String, ShellValue)>, queue: &mut VecDeque<Event>, used: &mut usize, ans: &Vec<ShellValue>, fuel: u64) -> (r: Result<ShellValue, ExecStop>)
    ensures
        ({
            let o = eval_binary_expr(*file, fuel as nat, op, *left, *right, env_map(env@), io_of(old(queue)@, *old(used)), values_view(ans@));
            o.res == val_res(r) && o.io == io_of(final(queue)@, *final(used))
        }),
    decreases fuel, 2int,
{
    let a = eval_expr(file, left, env, queue, used, ans, fuel)?;
    let b = eval_expr(file, right, env, queue, used, ans, fuel)?;
    eval_binary(op, a, b, used, ans)
}

fn eval_call_exec(file: &File, func: &Expr, args: &Vec<Expr>, env: &Vec<(String, ShellValue)>, queue: &mut VecDeque<Event>, used: &mut usize, ans: &Vec<ShellValue>, fuel: u64) -> (r: Result<ShellValue, ExecStop>)
    ensures
        ({
            let o = eval_call(*file, fuel as nat, *func, args@, env_map(env@), io_of(old(queue)@, *old(used)), values_view(ans@));
            o.res == val_res(r) && o.io == io_of(final(queue)@, *final(used))
        }),
    decreases fuel, 2int,
{
    match func {
        Expr::Ident(name) => {
            if str_eq(name.as_str(), "len") {
                if args.len() != 1 {
                    return Err(ExecStop::Fail(RunError::LenArity));
                }
                let v = eval_expr(file, &args[0], env, queue, used, ans, fuel)?;
                match v {
                    ShellValue::Array(xs) => {
                        assert(v@ == ValueView::Array(values_view(xs@)));
                        Ok(ShellValue::Int(xs.len() as i64))
                    },
                    ShellValue::Str(s) => {
                        let cs = chars_of(s.as_str());
                        let n = utf8_len_prefix(cs.as_slice(), cs.len());
                        assert(cs@.subrange(0, cs@.len() as int) =~= s@);
                        Ok(ShellValue::Int(n as i64))
                    },
                    _ => Err(ExecStop::Fail(RunError::LenUnsupported)),
                }
            } else {
                Err(ExecStop::Fail(RunError::UnknownFunction(name.clone())))
            }
        },
        _ => Err(ExecStop::Fail(RunError::DynamicCall)),
    }
}

fn eval_index_exec(file: &File, expr: &Expr, index: &Expr, env: &Vec<(String, ShellValue)>, queue: &mut VecDeque<Event>, used: &mut usize, ans: &Vec<ShellValue>, fuel: u64) -> (r: Result<ShellValue, ExecStop>)
    ensures
        ({
            let o = eval_index(*file, fuel as nat, *expr, *index, env_map(env@), io_of(old(queue)@, *old(used)), values_view(ans@));
            o.res == val_res(r) && o.io == io_of(final(queue)@, *final(used))
        }),
    decreases fuel, 2int,
{
    let a = eval_expr(file, expr, env, queue, used, ans, fuel)?;
    let k = eval_expr(file, index, env, queue, used, ans, fuel)?;
    match k {
        ShellValue::Int(k) => match a {
            ShellValue::Array(xs) => if 0 <= k && (k as u64) < (xs.len() as u64) {
                assert(values_view(xs@)[k as int] == value_view(xs@[k as int]));
                Ok(copy_value(&xs[k as usize]))
            } else {
                Err(ExecStop::Fail(RunError::IndexOutOfBounds(k)))
            },
            _ => Err(ExecStop::Fail(RunError::IndexOutOfBounds(k))),
        },
        _ => Err(ExecStop::Fail(RunError::IndexNotInt)),
    }
}

fn eval_use_exec(file: &File, path: &Vec<String>, args: &Vec<(String, Expr)>, env: &Vec<(String, ShellValue)>, queue: &mut VecDeque<Event>, used: &mut usize, ans: &Vec<ShellValue>, fuel: u64) -> (r: Result<ShellValue, ExecStop>)
    ensures
        ({
            let o = eval_use(*file, fuel as nat, *path, *args, env_map(env@), io_of(old(queue)@, *old(used)), values_view(ans@));
            o.res == val_res(r) && o.io == io_of(final(queue)@, *final(used))
        }),
    decreases fuel, 2int,
{
    match resolve_use(file, path, args) {
        Err(ue) => Err(ExecStop::Fail(RunError::Use(ue))),
        Ok(sig) => {
            let fs = eval_named_exec(file, args, true, env, queue, used, ans, fuel)?;
            ask_exec(ExecStop::Kernel { sig, args: fs }, used, ans)
        },
    }
}

fn push_event_exec(queue: &mut VecDeque<Event>, ev: Event)
    ensures
        queue_view(final(queue)@) == queue_view(old(queue)@).push(event_view(ev)),
{
    let ghost e = event_view(ev);
    queue.push_back(ev);
    assert(queue_view(queue@) =~= queue_view(old(queue)@).push(e));
}

fn eval_send_exec(file: &File, message: &Expr, target: &Vec<String>, args: &Vec<(String, Expr)>, env: &Vec<(String, ShellValue)>, queue: &mut VecDeque<Event>, used: &mut usize, ans: &Vec<ShellValue>, fuel: u64) -> (r: Result<ShellValue, ExecStop>)
    ensures
        ({
            let o = eval_send(*file, fuel as nat, *message, target@, args@, env_map(env@), io_of(old(queue)@, *old(used)), values_view(ans@));
            o.res == val_res(r) && o.io == io_of(final(queue)@, *final(used))
        }),
    decreases fuel, 2int,
{
    let m = eval_expr(file, message, env, queue, used, ans, fuel)?;
    match m {
        ShellValue::Str(m) => {
            if target.len() == 0 {
                return Err(ExecStop::Fail(RunError::EmptyTarget));
            }
            let fs = eval_named_exec(file, args, false, env, queue, used, ans, fuel)?;
            let t = target[target.len() - 1].clone();
            push_event_exec(queue, Event { target: t, message: m, args: fs });
            Ok(ShellValue::Unit)
        },
        _ => Err(ExecStop::Fail(RunError::SendNotString)),
    }
}

fn eval_if_exec(file: &File, cond: &Expr, then_expr: &Expr, else_expr: &Expr, env: &Vec<(String, ShellValue)>, queue: &mut VecDeque<Event>, used: &mut usize, ans: &Vec<ShellValue>, fuel: u64) -> (r: Result<ShellValue, ExecStop>)
    ensures
        ({
            let o = eval_if(*file, fuel as nat, *cond, *then_expr, *else_expr, env_map(env@), io_of(old(queue)@, *old(used)), values_view(ans@));
            o.res == val_res(r) && o.io == io_of(final(queue)@, *final(used))
        }),
    decreases fuel, 2int,
{
    let c = eval_expr(file, cond, env, queue, used, ans, fuel)?;
    match c {
        ShellValue::Bool(b) => if b {
            eval_expr(file, then_expr, env, queue, used, ans, fuel)
        } else {
            eval_expr(file, else_expr, env, queue, used, ans, fuel)
        },
        _ => Err(ExecStop::Fail(RunError::NotBool)),
    }
}

fn eval_match_exec(file: &File, expr: &Expr, arms: &Vec<MatchArm>, env: &Vec<(String, ShellValue)>, queue: &mut VecDeque<Event>, used: &mut usize, ans: &Vec<ShellValue>, fuel: u64) -> (r: Result<ShellValue, ExecStop>)
    ensures
        ({
            let o = eval_match(*file, fuel as nat, *expr, arms@, env_map(env@), io_of(old(queue)@, *old(used)), values_view(ans@));
            o.res == val_res(r) && o.io == io_of(final(queue)@, *final(used))
        }),
    decreases fuel, 2int,
{
    let v = eval_expr(file, expr, env, queue, used, ans, fuel)?;
    arms_value_exec(file, arms, &v, env, queue, used, ans, fuel)
}

fn eval_list_exec(file: &File, es: &Vec<Expr>, env: &Vec<(String, ShellValue)>, queue: &mut VecDeque<Event>, used: &mut usize, ans: &Vec<ShellValue>, fuel: u64) -> (r: Result<Vec<ShellValue>, ExecStop>)
    ensures
        ({
            let o = eval_list(*file, fuel as nat, es@, 0, env_map(env@), io_of(old(queue)@, *old(used)), values_view(ans@), Seq::empty());
            o.res == list_res(r) && o.io == io_of(final(queue)@, *final(used))
        }),
    decreases fuel, 1int,
{
    let ghost full = eval_list(*file, fuel as nat, es@, 0, env_map(env@), io_of(old(queue)@, *old(used)), values_view(ans@), Seq::empty());
    let mut acc: Vec<ShellValue> = Vec::new();
    assert(values_view(acc@) =~= Seq::<ValueView>::empty());
    let mut f = fuel;
    let mut i: usize = 0;
    while i < es.len()
        invariant
            full == eval_list(*file, fuel as nat, es@, 0, env_map(env@), io_of(old(queue)@, *old(used)), values_view(ans@), Seq::empty()),
            i <= es@.len(),
            f <= fuel,
            full == eval_list(*file, f as nat, es@, i as int, env_map(env@), io_of(queue@, *used), values_view(ans@), values_view(acc@)),
        decreases es@.len() - i,
    {
        if f == 0 {
            return Err(ExecStop::OutOfFuel);
        }
        let g = f - 1;
        let v = eval_expr(file, &es[i], env, queue, used, ans, g)?;
        let ghost before = values_view(acc@);
        let ghost vv = v@;
        acc.push(v);
        assert(values_view(acc@) =~= before.push(vv));
        i = i + 1;
        f = g;
    }
    Ok(acc)
}

fn eval_named_exec(file: &File, args: &Vec<(String, Expr)>, keep_all: bool, env: &Vec<(String, ShellValue)>, queue: &mut VecDeque<Event>, used: &mut usize, ans: &Vec<ShellValue>, fuel: u64) -> (r: Result<Vec<(String, ShellValue)>, ExecStop>)
    ensures
        ({
            let o = eval_named(*file, fuel as nat, args@, 0, keep_all, env_map(env@), io_of(old(queue)@, *old(used)), values_view(ans@), Seq::empty());
            o.res == named_res(r) && o.io == io_of(final(queue)@, *final(used))
        }),
    decreases fuel, 1int,
{
    let ghost full = eval_named(*file, fuel as nat, args@, 0, keep_all, env_map(env@), io_of(old(queue)@, *old(used)), values_view(ans@), Seq::empty());
    let mut acc: Vec<(String, ShellValue)> = Vec::new();
    assert(fields_view(acc@) =~= Seq::<(Seq<char>, ValueView)>::empty());
    let mut f = fuel;
    let mut i: usize = 0;
    while i < args.len()
        invariant
            full == eval_named(*file, fuel as nat, args@, 0, keep_all, env_map(env@), io_of(old(queue)@, *old(used)), values_view(ans@), Seq::empty()),
            i <= args@.len(),
            f <= fuel,
            full == eval_named(*file, f as nat, args@, i as int, keep_all, env_map(env@), io_of(queue@, *used), values_view(ans@), fields_view(acc@)),
        decreases args@.len() - i,
    {
        if f == 0 {
            return Err(ExecStop::OutOfFuel);
        }
        let g = f - 1;
        let v = eval_expr(file, &args[i].1, env, queue, used, ans, g)?;
        if keep_all {
            let ghost before = fields_view(acc@);
            let ghost entry = (args@[i as int].0@, v@);
            acc.push((args[i].0.clone(), v));
            assert(fields_view(acc@) =~= before.push(entry));
        } else {
            field_insert(&mut acc, args[i].0.clone(), v);
        }
        i = i + 1;
        f = g;
    }
    Ok(acc)
}

/// Makes the bindings of a match arm, in order.
fn bind_all_exec(env: &mut Vec<(String, ShellValue)>, bs: &Vec<(String, ShellValue)>)
    ensures
        env_map(final(env)@) == bind_all(env_map(old(env)@), fields_view(bs@)),
{
    let ghost start = env_map(env@);
    let ghost fv = fields_view(bs@);
    for i in 0..bs.len()
        invariant
            fv == fields_view(bs@),
            env_map(env@) == bind_all(start, fv.take(i as int)),
    {
        assert(fv.take(i + 1).drop_last() =~= fv.take(i as int));
        assert(fv.take(i + 1).last() == (bs@[i as int].0@, value_view(bs@[i as int].1)));
        env_insert(env, bs[i].0.clone(), copy_value(&bs[i].1));
    }
    assert(fv.take(bs@.len() as int) =~= fv);
}

/// Undoes the bindings of a match arm; `saved` is the environment from
/// before them.
fn unbind_exec(env: &mut Vec<(String, ShellValue)>, saved: &Vec<(String, ShellValue)>, bs: &Vec<(String, ShellValue)>)
    ensures
        env_map(final(env)@) == unbind(env_map(saved@), fields_view(bs@), env_map(old(env)@)),
{
    let ghost after = env_map(env@);
    let ghost fv = fields_view(bs@);
    for i in 0..bs.len()
        invariant
            fv == fields_view(bs@),
            env_map(env@) == unbind(env_map(saved@), fv.take(i as int), after),
    {
        assert(fv.take(i + 1).drop_last() =~= fv.take(i as int));
        assert(fv.take(i + 1).last().0 == bs@[i as int].0@);
        match env_get(saved, bs[i].0.as_str()) {
            Some(p) => env_insert(env, bs[i].0.clone(), p),
            None => env_remove(env, bs[i].0.as_str()),
        }
    }
    assert(fv.take(bs@.len() as int) =~= fv);
}

fn arms_value_exec(file: &File, arms: &Vec<MatchArm>, v: &ShellValue, env: &Vec<(String, ShellValue)>, queue: &mut VecDeque<Event>, used: &mut usize, ans: &Vec<ShellValue>, fuel: u64) -> (r: Result<ShellValue, ExecStop>)
    ensures
        ({
            let o = arms_value(*file, fuel as nat, arms@, 0, v@, env_map(env@), io_of(old(queue)@, *old(used)), values_view(ans@));
            o.res == val_res(r) && o.io == io_of(final(queue)@, *final(used))
        }),
    decreases fuel, 1int,
{
    let ghost full = arms_value(*file, fuel as nat, arms@, 0, v@, env_map(env@), io_of(old(queue)@, *old(used)), values_view(ans@));
    let mut f = fuel;
    let mut i: usize = 0;
    while i < arms.len()
        invariant
            full == arms_value(*file, fuel as nat, arms@, 0, v@, env_map(env@), io_of(old(queue)@, *old(used)), values_view(ans@)),
            i <= arms@.len(),
            f <= fuel,
            full == arms_value(*file, f as nat, arms@, i as int, v@, env_map(env@), io_of(queue@, *used), values_view(ans@)),
        decreases arms@.len() - i,
    {
        if f == 0 {
            return Err(ExecStop::OutOfFuel);
        }
        let g = f - 1;
        match match_bindings(&arms[i].pattern, v) {
            None => {},
            Some(bs) => {
                let mut env2 = env_copy(env);
                bind_all_exec(&mut env2, &bs);
                match &arms[i].body {
                    MatchBody::Expr(e) => {
                        return eval_expr(file, e, &env2, queue, used, ans, g);
                    },
                    MatchBody::Block(b) => {
                        let _ = block_run_exec(file, &b.statements, true, &mut env2, queue, used, ans, g)?;
                        return Ok(ShellValue::Unit);
                    },
                }
            },
        }
        i = i + 1;
        f = g;
    }
    Ok(ShellValue::Unit)
}

fn block_value_exec(file: &File, stmts: &Vec<Stmt>, env: &Vec<(String, ShellValue)>, queue: &mut VecDeque<Event>, used: &mut usize, ans: &Vec<ShellValue>, fuel: u64) -> (r: Result<ShellValue, ExecStop>)
    ensures
        ({
            let o = block_value(*file, fuel as nat, stmts@, 0, env_map(env@), io_of(old(queue)@, *old(used)), values_view(ans@), ValueView::Unit);
            o.res == val_res(r) && o.io == io_of(final(queue)@, *final(used))
        }),
    decreases fuel, 1int,
{
    let ghost full = block_value(*file, fuel as nat, stmts@, 0, env_map(env@), io_of(old(queue)@, *old(used)), values_view(ans@), ValueView::Unit);
    let mut local = env_copy(env);
    let mut last = ShellValue::Unit;
    let mut f = fuel;
    let mut i: usize = 0;
    while i < stmts.len()
        invariant
            full == block_value(*file, fuel as nat, stmts@, 0, env_map(env@), io_of(old(queue)@, *old(used)), values_view(ans@), ValueView::Unit),
            i <= stmts@.len(),
            f <= fuel,
            full == block_value(*file, f as nat, stmts@, i as int, env_map(local@), io_of(queue@, *used), values_view(ans@), last@),
        decreases stmts@.len() - i,
    {
        if f == 0 {
            return Err(ExecStop::OutOfFuel);
        }
        let g = f - 1;
        match &stmts[i] {
            Stmt::Expr(e) => {
                let v = eval_expr(file, e, &local, queue, used, ans, g)?;
                last = v;
            },
            s => {
                let _ = exec_stmt(file, s, &mut local, queue, used, ans, g)?;
            },
        }
        i = i + 1;
        f = g;
    }
    Ok(last)
}

/// Runs a statement; see `exec`.
pub fn exec_stmt(file: &File, s: &Stmt, env: &mut Vec<(String, ShellValue)>, queue: &mut VecDeque<Event>, used: &mut usize, ans: &Vec<ShellValue>, fuel: u64) -> (r: Result<Flow, ExecStop>)
    ensures
        ({
            let o = exec(*file, fuel as nat, *s, env_map(old(env)@), io_of(old(queue)@, *old(used)), values_view(ans@));
            o.res == flow_res(r) && o.env == env_map(final(env)@) && o.io == io_of(final(queue)@, *final(used))
        }),
    decreases fuel, 0int,
{
    if fuel == 0 {
        return Err(ExecStop::OutOfFuel);
    }
    let g = fuel - 1;
    match s {
        Stmt::Let { name, value, .. } => {
            let v = eval_expr(file, value, env, queue, used, ans, g)?;
            env_insert(env, name.clone(), v);
            Ok(Flow::Normal)
        },
        Stmt::Assign { target, value } => exec_assign_exec(file, target, value, env, queue, used, ans, g),
        Stmt::If { condition, then_block, else_block } => exec_if_exec(file, condition, then_block, else_block, env, queue, used, ans, g),
        Stmt::For { var, iter, body } => exec_for_exec(file, var, iter, body, env, queue, used, ans, g),
        Stmt::While { condition, body } => while_exec(file, condition, body, env, queue, used, ans, g),
        Stmt::Loop(body) => loop_exec(file, body, env, queue, used, ans, g),
        Stmt::Break => Ok(Flow::Break),
        Stmt::Continue => Ok(Flow::Continue),
        Stmt::Return(_) => Ok(Flow::Break),
        Stmt::Match { expr, arms } => {
            let v = eval_expr(file, expr, env, queue, used, ans, g)?;
            arms_run_exec(file, arms, &v, env, queue, used, ans, g)
        },
        Stmt::Defer(_) => Ok(Flow::Normal),
        Stmt::Send { message, target, args } => {
            let m = eval_expr(file, message, env, queue, used, ans, g)?;
            match m {
                ShellValue::Str(m) => {
                    let fs = eval_named_exec(file, args, false, env, queue, used, ans, g)?;
                    push_event_exec(queue, Event { target: target.clone(), message: m, args: fs });
                    Ok(Flow::Normal)
                },
                _ => Err(ExecStop::Fail(RunError::SendNotString)),
            }
        },
        Stmt::Expr(e) => {
            let _ = eval_expr(file, e, env, queue, used, ans, g)?;
            Ok(Flow::Normal)
        },
    }
}

fn set_leaf_exec(v: &ShellValue, leaf: &Leaf, x: &ShellValue) -> (r: Result<ShellValue, RunError>)
    ensures
        match set_leaf(v@, *leaf, x@) {
            Ok(n) => r matches Ok(w) && w@ == n,
            Err(e) => r == Err::<ShellValue, RunError>(e),
        },
{
    match leaf {
        Leaf::Index(k) => match v {
            ShellValue::Array(xs) => {
                let ghost xv = values_view(xs@);
                assert(v@ == ValueView::Array(xv));
                if 0 <= *k && (*k as u64) < (xs.len() as u64) {
                    let mut ys = copy_values(xs);
                    let c = copy_value(x);
                    ys.set(*k as usize, c);
                    assert(values_view(ys@) =~= xv.update(*k as int, x@));
                    let w = ShellValue::Array(ys);
                    assert(w@ == ValueView::Array(xv.update(*k as int, x@)));
                    Ok(w)
                } else {
                    Err(RunError::IndexOutOfBounds(*k))
                }
            },
            _ => Err(RunError::NotAnArray),
        },
        Leaf::Field(name) => match v {
            ShellValue::Struct(fs) => {
                assert(v@ == ValueView::Struct(fields_view(fs@)));
                let mut gs = copy_fields(fs);
                field_insert(&mut gs, name.clone(), copy_value(x));
                let w = ShellValue::Struct(gs);
                assert(w@ == ValueView::Struct(seq_insert(fields_view(fs@), name@, x@)));
                Ok(w)
            },
            _ => Ok(copy_value(v)),
        },
    }
}

fn set_path_exec(v: &ShellValue, path: &Vec<LValueStep>, i: usize, leaf: &Leaf, x: &ShellValue) -> (r: Result<ShellValue, RunError>)
    requires
        i <= path@.len(),
    ensures
        match set_path(v@, path@, i as int, *leaf, x@) {
            Ok(n) => r matches Ok(w) && w@ == n,
            Err(e) => r == Err::<ShellValue, RunError>(e),
        },
    decreases path@.len() - i,
{
    if i >= path.len() {
        return set_leaf_exec(v, leaf, x);
    }
    match &path[i] {
        LValueStep::Index(k) => match v {
            ShellValue::Array(xs) => {
                let ghost xv = values_view(xs@);
                assert(v@ == ValueView::Array(xv));
                if 0 <= *k && (*k as u64) < (xs.len() as u64) {
                    let ku = *k as usize;
                    assert(xv[ku as int] == value_view(xs@[ku as int]));
                    let n = set_path_exec(&xs[ku], path, i + 1, leaf, x)?;
                    let ghost nv = n@;
                    let mut ys = copy_values(xs);
                    ys.set(ku, n);
                    assert(values_view(ys@) =~= xv.update(ku as int, nv));
                    let w = ShellValue::Array(ys);
                    assert(w@ == ValueView::Array(xv.update(ku as int, nv)));
                    Ok(w)
                } else {
                    Err(RunError::IndexOutOfBounds(*k))
                }
            },
            _ => Err(RunError::NotAnArray),
        },
        LValueStep::Field(name) => match v {
            ShellValue::Struct(fs) => {
                let ghost fv = fields_view(fs@);
                assert(v@ == ValueView::Struct(fv));
                match find_field(fs, name.as_str()) {
                    Some(j) => {
                        assert(fv[j as int] == (fs@[j as int].0@, value_view(fs@[j as int].1)));
                        let n = set_path_exec(&fs[j].1, path, i + 1, leaf, x)?;
                        let ghost nv = n@;
                        let mut gs = copy_fields(fs);
                        let nm = fs[j].0.clone();
                        gs.set(j, (nm, n));
                        assert(fields_view(gs@) =~= fv.update(j as int, (fv[j as int].0, nv)));
                        let w = ShellValue::Struct(gs);
                        assert(w@ == ValueView::Struct(fv.update(j as int, (fv[j as int].0, nv))));
                        Ok(w)
                    },
                    None => Err(RunError::NoField(name.clone())),
                }
            },
            _ => Err(RunError::NotAStruct),
        },
    }
}

fn place_update_exec(env: &mut Vec<(String, ShellValue)>, target: &Expr, leaf: Leaf, x: ShellValue) -> (r: Result<(), RunError>)
    ensures
        match place_update(env_map(old(env)@), *target, leaf, x@) {
            Ok(e2) => r is Ok && env_map(final(env)@) == e2,
            Err(e) => r == Err::<(), RunError>(e) && env_map(final(env)@) == env_map(old(env)@),
        },
{
    match resolve_lvalue_path(target) {
        Err(le) => Err(RunError::Target(le)),
        Ok((root, path)) => match env_get(env, root.as_str()) {
            None => Err(RunError::Undefined(root)),
            Some(rv) => match set_path_exec(&rv, &path, 0, &leaf, &x) {
                Ok(nv) => {
                    env_insert(env, root, nv);
                    Ok(())
                },
                Err(e) => Err(e),
            },
        },
    }
}

fn exec_assign_exec(file: &File, target: &Expr, value: &Expr, env: &mut Vec<(String, ShellValue)>, queue: &mut VecDeque<Event>, used: &mut usize, ans: &Vec<ShellValue>, fuel: u64) -> (r: Result<Flow, ExecStop>)
    ensures
        ({
            let o = exec_assign(*file, fuel as nat, *target, *value, env_map(old(env)@), io_of(old(queue)@, *old(used)), values_view(ans@));
            o.res == flow_res(r) && o.env == env_map(final(env)@) && o.io == io_of(final(queue)@, *final(used))
        }),
    decreases fuel, 2int,
{
    let v = eval_expr(file, value, env, queue, used, ans, fuel)?;
    match target {
        Expr::Ident(n) => {
            env_insert(env, n.clone(), v);
            Ok(Flow::Normal)
        },
        Expr::Index { expr, index } => {
            let k = eval_expr(file, index, env, queue, used, ans, fuel)?;
            match k {
                ShellValue::Int(k) => match place_update_exec(env, expr, Leaf::Index(k), v) {
                    Ok(()) => Ok(Flow::Normal),
                    Err(e) => Err(ExecStop::Fail(e)),
                },
                _ => Err(ExecStop::Fail(RunError::IndexNotInt)),
            }
        },
        Expr::Field { expr, field } => match place_update_exec(env, expr, Leaf::Field(field.clone()), v) {
            Ok(()) => Ok(Flow::Normal),
            Err(e) => Err(ExecStop::Fail(e)),
        },
        _ => Err(ExecStop::Fail(RunError::BadAssignTarget)),
    }
}

fn exec_if_exec(file: &File, cond: &Expr, then_block: &Block, else_block: &Option<Block>, env: &mut Vec<(String, ShellValue)>, queue: &mut VecDeque<Event>, used: &mut usize, ans: &Vec<ShellValue>, fuel: u64) -> (r: Result<Flow, ExecStop>)
    ensures
        ({
            let o = exec_if(*file, fuel as nat, *cond, *then_block, *else_block, env_map(old(env)@), io_of(old(queue)@, *old(used)), values_view(ans@));
            o.res == flow_res(r) && o.env == env_map(final(env)@) && o.io == io_of(final(queue)@, *final(used))
        }),
    decreases fuel, 2int,
{
    let c = eval_expr(file, cond, env, queue, used, ans, fuel)?;
    match c {
        ShellValue::Bool(b) => if b {
            block_run_exec(file, &then_block.statements, false, env, queue, used, ans, fuel)
        } else {
            match else_block {
                Some(eb) => block_run_exec(file, &eb.statements, false, env, queue, used, ans, fuel),
                None => Ok(Flow::Normal),
            }
        },
        _ => Err(ExecStop::Fail(RunError::NotBool)),
    }
}

fn restore_exec(env: &mut Vec<(String, ShellValue)>, var: &String, saved: Option<ShellValue>)
    ensures
        env_map(final(env)@) == match saved {
            Some(p) => env_map(old(env)@).insert(var@, p@),
            None => env_map(old(env)@).remove(var@),
        },
{
    match saved {
        Some(p) => env_insert(env, var.clone(), p),
        None => env_remove(env, var.as_str()),
    }
}

fn exec_for_exec(file: &File, var: &String, iter: &Expr, body: &Block, env: &mut Vec<(String, ShellValue)>, queue: &mut VecDeque<Event>, used: &mut usize, ans: &Vec<ShellValue>, fuel: u64) -> (r: Result<Flow, ExecStop>)
    ensures
        ({
            let o = exec_for(*file, fuel as nat, *var, *iter, *body, env_map(old(env)@), io_of(old(queue)@, *old(used)), values_view(ans@));
            o.res == flow_res(r) && o.env == env_map(final(env)@) && o.io == io_of(final(queue)@, *final(used))
        }),
    decreases fuel, 2int,
{
    match iter {
        Expr::Range { start, end, inclusive } => {
            let a = eval_expr(file, start, env, queue, used, ans, fuel)?;
            let b = eval_expr(file, end, env, queue, used, ans, fuel)?;
            match (a, b) {
                (ShellValue::Int(x), ShellValue::Int(y)) => {
                    let stop = if *inclusive {
                        y.wrapping_add(1)
                    } else {
                        y
                    };
                    let saved = env_get(env, var.as_str());
                    let _ = range_exec(file, var, body, x, stop, env, queue, used, ans, fuel)?;
                    restore_exec(env, var, saved);
                    Ok(Flow::Normal)
                },
                _ => Err(ExecStop::Fail(RunError::RangeNotInt)),
            }
        },
        _ => {
            let v = eval_expr(file, iter, env, queue, used, ans, fuel)?;
            match v {
                ShellValue::Array(items) => {
                    let saved = env_get(env, var.as_str());
                    let _ = items_exec(file, var, body, &items, env, queue, used, ans, fuel)?;
                    restore_exec(env, var, saved);
                    Ok(Flow::Normal)
                },
                _ => Err(ExecStop::Fail(RunError::NotIterable)),
            }
        },
    }
}

fn range_exec(file: &File, var: &String, body: &Block, x: i64, stop: i64, env: &mut Vec<(String, ShellValue)>, queue: &mut VecDeque<Event>, used: &mut usize, ans: &Vec<ShellValue>, fuel: u64) -> (r: Result<Flow, ExecStop>)
    ensures
        ({
            let o = range_run(*file, fuel as nat, *var, *body, x as int, stop as int, env_map(old(env)@), io_of(old(queue)@, *old(used)), values_view(ans@));
            o.res == flow_res(r) && o.env == env_map(final(env)@) && o.io == io_of(final(queue)@, *final(used))
        }),
    decreases fuel, 1int,
{
    let ghost full = range_run(*file, fuel as nat, *var, *body, x as int, stop as int, env_map(env@), io_of(old(queue)@, *old(used)), values_view(ans@));
    let mut f = fuel;
    let mut i = x;
    while i < stop
        invariant
            full == range_run(*file, fuel as nat, *var, *body, x as int, stop as int, env_map(old(env)@), io_of(old(queue)@, *old(used)), values_view(ans@)),
            f <= fuel,
            full == range_run(*file, f as nat, *var, *body, i as int, stop as int, env_map(env@), io_of(queue@, *used), values_view(ans@)),
        decreases stop - i,
    {
        if f == 0 {
            return Err(ExecStop::OutOfFuel);
        }
        let g = f - 1;
        env_insert(env, var.clone(), ShellValue::Int(i));
        let fl = block_run_exec(file, &body.statements, false, env, queue, used, ans, g)?;
        if fl == Flow::Break {
            return Ok(Flow::Normal);
        }
        i = i + 1;
        f = g;
    }
    Ok(Flow::Normal)
}

fn items_exec(file: &File, var: &String, body: &Block, items: &Vec<ShellValue>, env: &mut Vec<(String, ShellValue)>, queue: &mut VecDeque<Event>, used: &mut usize, ans: &Vec<ShellValue>, fuel: u64) -> (r: Result<Flow, ExecStop>)
    ensures
        ({
            let o = items_run(*file, fuel as nat, *var, *body, values_view(items@), 0, env_map(old(env)@), io_of(old(queue)@, *old(used)), values_view(ans@));
            o.res == flow_res(r) && o.env == env_map(final(env)@) && o.io == io_of(final(queue)@, *final(used))
        }),
    decreases fuel, 1int,
{
    let ghost iv = values_view(items@);
    let ghost full = items_run(*file, fuel as nat, *var, *body, iv, 0, env_map(env@), io_of(old(queue)@, *old(used)), values_view(ans@));
    let mut f = fuel;
    let mut i: usize = 0;
    while i < items.len()
        invariant
            full == items_run(*file, fuel as nat, *var, *body, iv, 0, env_map(old(env)@), io_of(old(queue)@, *old(used)), values_view(ans@)),
            i <= items@.len(),
            f <= fuel,
            iv == values_view(items@),
            full == items_run(*file, f as nat, *var, *body, iv, i as int, env_map(env@), io_of(queue@, *used), values_view(ans@)),
        decreases items@.len() - i,
    {
        if f == 0 {
            return Err(ExecStop::OutOfFuel);
        }
        let g = f - 1;
        assert(iv[i as int] == value_view(items@[i as int]));
        env_insert(env, var.clone(), copy_value(&items[i]));
        let fl = block_run_exec(file, &body.statements, false, env, queue, used, ans, g)?;
        if fl == Flow::Break {
            return Ok(Flow::Normal);
        }
        i = i + 1;
        f = g;
    }
    Ok(Flow::Normal)
}

fn while_exec(file: &File, cond: &Expr, body: &Block, env: &mut Vec<(String, ShellValue)>, queue: &mut VecDeque<Event>, used: &mut usize, ans: &Vec<ShellValue>, fuel: u64) -> (r: Result<Flow, ExecStop>)
    ensures
        ({
            let o = while_run(*file, fuel as nat, *cond, *body, env_map(old(env)@), io_of(old(queue)@, *old(used)), values_view(ans@));
            o.res == flow_res(r) && o.env == env_map(final(env)@) && o.io == io_of(final(queue)@, *final(used))
        }),
    decreases fuel, 1int,
{
    let ghost full = while_run(*file, fuel as nat, *cond, *body, env_map(env@), io_of(old(queue)@, *old(used)), values_view(ans@));
    let mut f = fuel;
    loop
        invariant
            full == while_run(*file, fuel as nat, *cond, *body, env_map(old(env)@), io_of(old(queue)@, *old(used)), values_view(ans@)),
            f <= fuel,
            full == while_run(*file, f as nat, *cond, *body, env_map(env@), io_of(queue@, *used), values_view(ans@)),
        decreases f,
    {
        if f == 0 {
            return Err(ExecStop::OutOfFuel);
        }
        let g = f - 1;
        let c = eval_expr(file, cond, env, queue, used, ans, g)?;
        match c {
            ShellValue::Bool(b) => {
                if !b {
                    return Ok(Flow::Normal);
                }
                let fl = block_run_exec(file, &body.statements, false, env, queue, used, ans, g)?;
                if fl == Flow::Break {
                    return Ok(Flow::Normal);
                }
            },
            _ => {
                return Err(ExecStop::Fail(RunError::NotBool));
            },
        }
        f = g;
    }
}

fn loop_exec(file: &File, body: &Block, env: &mut Vec<(String, ShellValue)>, queue: &mut VecDeque<Event>, used: &mut usize, ans: &Vec<ShellValue>, fuel: u64) -> (r: Result<Flow, ExecStop>)
    ensures
        ({
            let o = loop_run(*file, fuel as nat, *body, env_map(old(env)@), io_of(old(queue)@, *old(used)), values_view(ans@));
            o.res == flow_res(r) && o.env == env_map(final(env)@) && o.io == io_of(final(queue)@, *final(used))
        }),
    decreases fuel, 1int,
{
    let ghost full = loop_run(*file, fuel as nat, *body, env_map(env@), io_of(old(queue)@, *old(used)), values_view(ans@));
    let mut f = fuel;
    loop
        invariant
            full == loop_run(*file, fuel as nat, *body, env_map(old(env)@), io_of(old(queue)@, *old(used)), values_view(ans@)),
            f <= fuel,
            full == loop_run(*file, f as nat, *body, env_map(env@), io_of(queue@, *used), values_view(ans@)),
        decreases f,
    {
        if f == 0 {
            return Err(ExecStop::OutOfFuel);
        }
        let g = f - 1;
        let fl = block_run_exec(file, &body.statements, false, env, queue, used, ans, g)?;
        if fl == Flow::Break {
            return Ok(Flow::Normal);
        }
        f = g;
    }
}

fn arms_run_exec(file: &File, arms: &Vec<MatchArm>, v: &ShellValue, env: &mut Vec<(String, ShellValue)>, queue: &mut VecDeque<Event>, used: &mut usize, ans: &Vec<ShellValue>, fuel: u64) -> (r: Result<Flow, ExecStop>)
    ensures
        ({
            let o = arms_run(*file, fuel as nat, arms@, 0, v@, env_map(old(env)@), io_of(old(queue)@, *old(used)), values_view(ans@));
            o.res == flow_res(r) && o.env == env_map(final(env)@) && o.io == io_of(final(queue)@, *final(used))
        }),
    decreases fuel, 1int,
{
    let ghost full = arms_run(*file, fuel as nat, arms@, 0, v@, env_map(env@), io_of(old(queue)@, *old(used)), values_view(ans@));
    let mut f = fuel;
    let mut i: usize = 0;
    while i < arms.len()
        invariant
            full == arms_run(*file, fuel as nat, arms@, 0, v@, env_map(old(env)@), io_of(old(queue)@, *old(used)), values_view(ans@)),
            i <= arms@.len(),
            f <= fuel,
            full == arms_run(*file, f as nat, arms@, i as int, v@, env_map(env@), io_of(queue@, *used), values_view(ans@)),
        decreases arms@.len() - i,
    {
        if f == 0 {
            return Err(ExecStop::OutOfFuel);
        }
        let g = f - 1;
        match match_bindings(&arms[i].pattern, v) {
            None => {},
            Some(bs) => {
                let saved = env_copy(env);
                bind_all_exec(env, &bs);
                match &arms[i].body {
                    MatchBody::Expr(e) => {
                        let _ = eval_expr(file, e, env, queue, used, ans, g)?;
                        unbind_exec(env, &saved, &bs);
                        return Ok(Flow::Normal);
                    },
                    MatchBody::Block(b) => {
                        let fl = block_run_exec(file, &b.statements, false, env, queue, used, ans, g)?;
                        unbind_exec(env, &saved, &bs);
                        return Ok(fl);
                    },
                }
            },
        }
        i = i + 1;
        f = g;
    }
    Ok(Flow::Normal)
}

/// Runs the statements of a block; see `block_run`. `top` is for a
/// handler's body and a deferred block.
pub fn block_run_exec(file: &File, stmts: &Vec<Stmt>, top: bool, env: &mut Vec<(String, ShellValue)>, queue: &mut VecDeque<Event>, used: &mut usize, ans: &Vec<ShellValue>, fuel: u64) -> (r: Result<Flow, ExecStop>)
    ensures
        ({
            let o = block_run(*file, fuel as nat, stmts@, 0, Seq::empty(), top, env_map(old(env)@), io_of(old(queue)@, *old(used)), values_view(ans@));
            o.res == flow_res(r) && o.env == env_map(final(env)@) && o.io == io_of(final(queue)@, *final(used))
        }),
    decreases fuel, 1int,
{
    let ghost full = block_run(*file, fuel as nat, stmts@, 0, Seq::empty(), top, env_map(env@), io_of(old(queue)@, *old(used)), values_view(ans@));
    let mut defers: Vec<usize> = Vec::new();
    let mut f = fuel;
    let mut i: usize = 0;
    while i < stmts.len()
        invariant
            full == block_run(*file, fuel as nat, stmts@, 0, Seq::empty(), top, env_map(old(env)@), io_of(old(queue)@, *old(used)), values_view(ans@)),
            i <= stmts@.len(),
            f <= fuel,
            forall|k: int| 0 <= k < defers@.len() ==> defers@[k] < stmts@.len(),
            full == block_run(*file, f as nat, stmts@, i as int, defers@, top, env_map(env@), io_of(queue@, *used), values_view(ans@)),
        decreases stmts@.len() - i,
    {
        if f == 0 {
            return Err(ExecStop::OutOfFuel);
        }
        let g = f - 1;
        match &stmts[i] {
            Stmt::Defer(_) => {
                defers.push(i);
            },
            s => {
                let fl = exec_stmt(file, s, env, queue, used, ans, g)?;
                let ends = if top {
                    fl == Flow::Break
                } else {
                    fl != Flow::Normal
                };
                if ends {
                    return defers_run_exec(file, stmts, &defers, fl, env, queue, used, ans, g);
                }
            },
        }
        i = i + 1;
        f = g;
    }
    defers_run_exec(file, stmts, &defers, Flow::Normal, env, queue, used, ans, f)
}

fn defers_run_exec(file: &File, stmts: &Vec<Stmt>, defers: &Vec<usize>, flow: Flow, env: &mut Vec<(String, ShellValue)>, queue: &mut VecDeque<Event>, used: &mut usize, ans: &Vec<ShellValue>, fuel: u64) -> (r: Result<Flow, ExecStop>)
    requires
        forall|k: int| 0 <= k < defers@.len() ==> defers@[k] < stmts@.len(),
    ensures
        ({
            let o = defers_run(*file, fuel as nat, stmts@, defers@, defers@.len() as int, flow, env_map(old(env)@), io_of(old(queue)@, *old(used)), values_view(ans@));
            o.res == flow_res(r) && o.env == env_map(final(env)@) && o.io == io_of(final(queue)@, *final(used))
        }),
    decreases fuel, 0int,
{
    let ghost full = defers_run(*file, fuel as nat, stmts@, defers@, defers@.len() as int, flow, env_map(env@), io_of(old(queue)@, *old(used)), values_view(ans@));
    let mut f = fuel;
    let mut k = defers.len();
    while k > 0
        invariant
            full == defers_run(*file, fuel as nat, stmts@, defers@, defers@.len() as int, flow, env_map(old(env)@), io_of(old(queue)@, *old(used)), values_view(ans@)),
            k <= defers@.len(),
            f <= fuel,
            forall|j: int| 0 <= j < defers@.len() ==> defers@[j] < stmts@.len(),
            full == defers_run(*file, f as nat, stmts@, defers@, k as int, flow, env_map(env@), io_of(queue@, *used), values_view(ans@)),
        decreases k,
    {
        if f == 0 {
            return Err(ExecStop::OutOfFuel);
        }
        let g = f - 1;
        match &stmts[defers[k - 1]] {
            Stmt::Defer(b) => {
                let _ = block_run_exec(file, &b.statements, true, env, queue, used, ans, g)?;
            },
            _ => {},
        }
        k = k - 1;
        f = g;
    }
    Ok(flow)
}


/// Runs a handler's body in its environment, as a block of its own (a
/// `return` or `break` ends it, then its deferred blocks run), with the
/// replies `answers`; `Ok` gives how many replies it used.
pub fn run_handler(
    file: &File,
    body: &Block,
    env: &mut Vec<(String, ShellValue)>,
    queue: &mut VecDeque<Event>,
    answers: &Vec<ShellValue>,
    fuel: u64,
) -> (r: Result<usize, ExecStop>)
    ensures
        ({
            let o = block_run(*file, fuel as nat, body.statements@, 0, Seq::empty(), true, env_map(old(env)@), io_of(old(queue)@, 0), values_view(answers@));
            &&& o.env == env_map(final(env)@)
            &&& o.io.queue == queue_view(final(queue)@)
            &&& match o.res {
                Ok(_) => r matches Ok(n) && n == o.io.used,
                Err(s) => r matches Err(e) && e@ == s,
            }
        }),
{
    let mut used: usize = 0;
    let res = block_run_exec(file, &body.statements, true, env, queue, &mut used, answers, fuel);
    match res {
        Ok(_) => Ok(used),
        Err(e) => Err(e),
    }
}


/// A copy of a message queue.
pub fn copy_queue(q: &VecDeque<Event>) -> (r: VecDeque<Event>)
    ensures
        queue_view(r@) == queue_view(q@),
{
    let mut r: VecDeque<Event> = VecDeque::new();
    let n = q.len();
    for i in 0..n
        invariant
            n == q@.len(),
            r@.len() == i,
            forall|j: int| 0 <= j < i ==> event_view(#[trigger] r@[j]) == event_view(q@[j]),
    {
        let e = &q[i];
        let c = Event { target: e.target.clone(), message: e.message.clone(), args: copy_fields(&e.args) };
        r.push_back(c);
    }
    assert(queue_view(r@) =~= queue_view(q@));
    r
}

/// The second half of a step that runs a handler: the handler `handler`
/// of the agent runtime `agent` runs in `env` (see `step_begin`) with the
/// replies `answers`, on a copy of the queue. When it ends, the queue takes
/// the messages it sent and the agent's state what it wrote back (see
/// `step_finish`); when it stops, the run is left as it was, to be finished
/// again with more replies.
pub fn finish_step(
    vm: &mut ShellVm,
    file: &File,
    shell: &Shell,
    agent: usize,
    handler: usize,
    env: &Vec<(String, ShellValue)>,
    answers: &Vec<ShellValue>,
    fuel: u64,
) -> (r: Result<usize, ExecStop>)
    requires
        vm_wf(*old(vm), *shell),
        agent < old(vm).agents@.len(),
        handler < shell.agents@[old(vm).agents@[agent as int].decl as int].handlers@.len(),
    ensures
        vm_wf(*final(vm), *shell),
        final(vm).max_steps == old(vm).max_steps,
        ({
            let rt = old(vm).agents@[agent as int];
            let body = shell.agents@[rt.decl as int].handlers@[handler as int].body;
            let o = block_run(*file, fuel as nat, body.statements@, 0, Seq::empty(), true, env_map(env@), io_of(old(vm).queue@, 0), values_view(answers@));
            match o.res {
                Ok(_) => {
                    &&& r matches Ok(n) && n == o.io.used
                    &&& queue_view(final(vm).queue@) == o.io.queue
                    &&& final(vm).steps == old(vm).steps
                    &&& final(vm).terminated == old(vm).terminated
                    &&& final(vm).agents@.len() == old(vm).agents@.len()
                    &&& forall|a: int| 0 <= a < old(vm).agents@.len() && a != agent ==> #[trigger] final(vm).agents@[a] == old(vm).agents@[a]
                    &&& final(vm).agents@[agent as int].name == rt.name
                    &&& final(vm).agents@[agent as int].decl == rt.decl
                    &&& env_map(final(vm).agents@[agent as int].state@) == write_back(env_map(rt.state@), rt.state_keys@, o.env, rt.state_keys@.len() as int)
                },
                Err(s) => r matches Err(e) && e@ == s && *final(vm) == *old(vm),
            }
        }),
{
    let decl = vm.agents[agent].decl;
    let body = &shell.agents[decl].handlers[handler].body;
    let mut env2 = env_copy(env);
    let mut q2 = copy_queue(&vm.queue);
    match run_handler(file, body, &mut env2, &mut q2, answers, fuel) {
        Ok(n) => {
            vm.queue = q2;
            step_finish(vm, agent, &env2);
            proof {
                assert forall|a: int| 0 <= a < vm.agents@.len() implies (#[trigger] vm.agents@[a]).decl < shell.agents@.len() by {
                    if a != agent {
                        assert(vm.agents@[a] == old(vm).agents@[a]);
                    }
                }
            }
            Ok(n)
        },
        Err(e) => Err(e),
    }
}


// ---------------------------------------------------------------------------
// Starting a run
// ---------------------------------------------------------------------------
/// An agent's state after its initialisers from `i` on ran: each is
/// evaluated, with the fuel `f`, in the state so far and sets its name.
pub open spec fn init_state(file: File, f: nat, decls: Seq<StateDecl>, i: int, env: EnvView, io: Io, ans: Seq<ValueView>) -> StmtOut
    decreases decls.len() - i,
{
    if i < 0 || i >= decls.len() {
        sok(Flow::Normal, env, io)
    } else {
        let o = eval(file, f, decls[i].value, env, io, ans);
        match o.res {
            Err(s) => StmtOut { res: Err(s), env, io: o.io },
            Ok(v) => init_state(file, f, decls, i + 1, env.insert(decls[i].name@, v), o.io, ans),
        }
    }
}

pub ghost struct InitOut {
    pub res: Result<Seq<EnvView>, StopView>,
    pub io: Io,
}

/// The states of the agents from `d` on, after `acc`, each starting empty.
pub open spec fn init_agents(file: File, f: nat, agents: Seq<Agent>, d: int, io: Io, ans: Seq<ValueView>, acc: Seq<EnvView>) -> InitOut
    decreases agents.len() - d,
{
    if d < 0 || d >= agents.len() {
        InitOut { res: Ok(acc), io }
    } else {
        let o = init_state(file, f, agents[d].state@, 0, Map::empty(), io, ans);
        match o.res {
            Err(s) => InitOut { res: Err(s), io: o.io },
            Ok(_) => init_agents(file, f, agents, d + 1, o.io, ans, acc.push(o.env)),
        }
    }
}

pub open spec fn decl_names(decls: Seq<StateDecl>) -> Seq<String> {
    Seq::new(decls.len(), |i: int| decls[i].name)
}

fn init_state_exec(
    file: &File,
    decls: &Vec<StateDecl>,
    queue: &mut VecDeque<Event>,
    used: &mut usize,
    ans: &Vec<ShellValue>,
    fuel: u64,
) -> (r: Result<(Vec<(String, ShellValue)>, Vec<String>), ExecStop>)
    ensures
        ({
            let o = init_state(*file, fuel as nat, decls@, 0, Map::empty(), io_of(old(queue)@, *old(used)), values_view(ans@));
            &&& o.io == io_of(final(queue)@, *final(used))
            &&& match o.res {
                Ok(_) => r matches Ok((st, keys)) && env_map(st@) == o.env && keys@ == decl_names(decls@),
                Err(s) => r matches Err(e) && e@ == s,
            }
        }),
{
    let mut state: Vec<(String, ShellValue)> = Vec::new();
    let mut keys: Vec<String> = Vec::new();
    proof {
        assert(env_map(state@) =~= Map::<Seq<char>, ValueView>::empty());
    }
    let n = decls.len();
    for i in 0..n
        invariant
            n == decls@.len(),
            keys@ =~= decl_names(decls@).take(i as int),
            init_state(*file, fuel as nat, decls@, 0, Map::empty(), io_of(old(queue)@, *old(used)), values_view(ans@))
                == init_state(*file, fuel as nat, decls@, i as int, env_map(state@), io_of(queue@, *used), values_view(ans@)),
    {
        let v = eval_expr(file, &decls[i].value, &state, queue, used, ans, fuel)?;
        env_insert(&mut state, decls[i].name.clone(), v);
        keys.push(decls[i].name.clone());
        assert(keys@ =~= decl_names(decls@).take(i + 1));
    }
    assert(keys@ =~= decl_names(decls@));
    Ok((state, keys))
}

/// Starts a run of a shell: each agent's state is set by its initialisers,
/// in order, with the fuel `fuel` each and the replies `answers`; the
/// messages they send make up the first queue. No step has been taken and
/// the run was not told to stop.
pub fn new_vm(file: &File, shell: &Shell, max_steps: usize, answers: &Vec<ShellValue>, fuel: u64) -> (r: Result<ShellVm, ExecStop>)
    ensures
        ({
            let o = init_agents(*file, fuel as nat, shell.agents@, 0, io_of(Seq::empty(), 0), values_view(answers@), Seq::empty());
            match o.res {
                Ok(states) => r matches Ok(vm) && {
                    &&& vm.agents@.len() == shell.agents@.len()
                    &&& states.len() == shell.agents@.len()
                    &&& forall|d: int| 0 <= d < shell.agents@.len() ==> {
                        &&& (#[trigger] vm.agents@[d]).name == shell.agents@[d].name
                        &&& vm.agents@[d].decl == d
                        &&& vm.agents@[d].state_keys@ == decl_names(shell.agents@[d].state@)
                        &&& env_map(vm.agents@[d].state@) == states[d]
                    }
                    &&& queue_view(vm.queue@) == o.io.queue
                    &&& vm.steps == 0
                    &&& vm.max_steps == max_steps
                    &&& !vm.terminated
                    &&& vm_wf(vm, *shell)
                },
                Err(s) => r matches Err(e) && e@ == s,
            }
        }),
{
    let mut queue: VecDeque<Event> = VecDeque::new();
    let mut used: usize = 0;
    let mut agents: Vec<AgentRuntime> = Vec::new();
    assert(queue_view(queue@) =~= Seq::<EventView>::empty());
    let ghost full = init_agents(*file, fuel as nat, shell.agents@, 0, io_of(queue@, 0), values_view(answers@), Seq::empty());
    let ghost mut states: Seq<EnvView> = Seq::empty();
    let n = shell.agents.len();
    for d in 0..n
        invariant
            n == shell.agents@.len(),
            agents@.len() == d,
            states.len() == d,
            full == init_agents(*file, fuel as nat, shell.agents@, 0, io_of(Seq::empty(), 0), values_view(answers@), Seq::empty()),
            full == init_agents(*file, fuel as nat, shell.agents@, d as int, io_of(queue@, used), values_view(answers@), states),
            forall|k: int| 0 <= k < d ==> {
                &&& (#[trigger] agents@[k]).name == shell.agents@[k].name
                &&& agents@[k].decl == k
                &&& agents@[k].state_keys@ == decl_names(shell.agents@[k].state@)
                &&& env_map(agents@[k].state@) == states[k]
            },
    {
        let (state, keys) = init_state_exec(file, &shell.agents[d].state, &mut queue, &mut used, answers, fuel)?;
        proof {
            states = states.push(env_map(state@));
        }
        agents.push(AgentRuntime { name: shell.agents[d].name.clone(), decl: d, state, state_keys: keys });
    }
    Ok(ShellVm { agents, queue, steps: 0, max_steps, terminated: false })
}


// ---------------------------------------------------------------------------
// Laws of `defer`
// ---------------------------------------------------------------------------
/// Deferred blocks run when their block ends, the last one first: a block
/// of two deferred blocks `a` then `b` runs `b`, then `a` (each as a block of
/// its own), given fuel for the four steps.
pub proof fn lemma_defers_run_last_first(
    file: File,
    f: nat,
    a: Block,
    b: Block,
    top: bool,
    env: EnvView,
    io: Io,
    ans: Seq<ValueView>,
)
    requires
        f >= 4,
    ensures
        ({
            let stmts = seq![Stmt::Defer(a), Stmt::Defer(b)];
            let ob = block_run(file, (f - 3) as nat, b.statements@, 0, Seq::empty(), true, env, io, ans);
            block_run(file, f, stmts, 0, Seq::empty(), top, env, io, ans) == match ob.res {
                Err(_) => ob,
                Ok(_) => {
                    let oa = block_run(file, (f - 4) as nat, a.statements@, 0, Seq::empty(), true, ob.env, ob.io, ans);
                    match oa.res {
                        Err(_) => oa,
                        Ok(_) => sok(Flow::Normal, oa.env, oa.io),
                    }
                },
            }
        }),
{
    let stmts = seq![Stmt::Defer(a), Stmt::Defer(b)];
    let d0 = Seq::<usize>::empty().push(0usize);
    let d1 = d0.push(1usize);
    assert(block_run(file, f, stmts, 0, Seq::empty(), top, env, io, ans) == block_run(file, (f - 1) as nat, stmts, 1, d0, top, env, io, ans));
    assert(block_run(file, (f - 1) as nat, stmts, 1, d0, top, env, io, ans) == block_run(file, (f - 2) as nat, stmts, 2, d1, top, env, io, ans));
    assert(block_run(file, (f - 2) as nat, stmts, 2, d1, top, env, io, ans) == defers_run(file, (f - 2) as nat, stmts, d1, 2, Flow::Normal, env, io, ans));
    let ob = block_run(file, (f - 3) as nat, b.statements@, 0, Seq::empty(), true, env, io, ans);
    if ob.res is Ok {
        assert(defers_run(file, (f - 2) as nat, stmts, d1, 2, Flow::Normal, env, io, ans) == defers_run(file, (f - 3) as nat, stmts, d1, 1, Flow::Normal, ob.env, ob.io, ans));
        let oa = block_run(file, (f - 4) as nat, a.statements@, 0, Seq::empty(), true, ob.env, ob.io, ans);
        if oa.res is Ok {
            assert(defers_run(file, (f - 3) as nat, stmts, d1, 1, Flow::Normal, ob.env, ob.io, ans) == defers_run(file, (f - 4) as nat, stmts, d1, 0, Flow::Normal, oa.env, oa.io, ans));
        }
    }
}

/// A `return` ends its block, and the block's deferred blocks still run;
/// what follows the `return` does not run.
pub proof fn lemma_return_runs_defers(
    file: File,
    f: nat,
    a: Block,
    value: Option<Expr>,
    rest: Stmt,
    top: bool,
    env: EnvView,
    io: Io,
    ans: Seq<ValueView>,
)
    requires
        f >= 3,
    ensures
        ({
            let stmts = seq![Stmt::Defer(a), Stmt::Return(value), rest];
            let oa = block_run(file, (f - 3) as nat, a.statements@, 0, Seq::empty(), true, env, io, ans);
            block_run(file, f, stmts, 0, Seq::empty(), top, env, io, ans) == match oa.res {
                Err(_) => oa,
                Ok(_) => sok(Flow::Break, oa.env, oa.io),
            }
        }),
{
    let stmts = seq![Stmt::Defer(a), Stmt::Return(value), rest];
    let d0 = Seq::<usize>::empty().push(0usize);
    assert(block_run(file, f, stmts, 0, Seq::empty(), top, env, io, ans) == block_run(file, (f - 1) as nat, stmts, 1, d0, top, env, io, ans));
    assert(exec(file, (f - 2) as nat, stmts[1], env, io, ans) == sok(Flow::Break, env, io));
    assert(block_run(file, (f - 1) as nat, stmts, 1, d0, top, env, io, ans) == defers_run(file, (f - 2) as nat, stmts, d0, 1, Flow::Break, env, io, ans));
    let oa = block_run(file, (f - 3) as nat, a.statements@, 0, Seq::empty(), true, env, io, ans);
    if oa.res is Ok {
        assert(defers_run(file, (f - 2) as nat, stmts, d0, 1, Flow::Break, env, io, ans) == defers_run(file, (f - 3) as nat, stmts, d0, 0, Flow::Break, oa.env, oa.io, ans));
    }
}

} // verus!
