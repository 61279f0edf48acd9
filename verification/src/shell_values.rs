//! Values of a shell run: their mathematical view, copies, the reads of
//! array elements, struct fields and booleans, and the binding of match
//! patterns to values.
use vstd::prelude::*;
use crate::ast::{Literal, Pattern, UnaryOp};
use crate::shell_runtime::ShellValue;
use crate::text::str_eq;

verus! {

/// A shell value with its lists as sequences and its texts as characters.
pub ghost enum ValueView {
    Int(i64),
    Float(u64),
    Bool(bool),
    Str(Seq<char>),
    Opt(Option<Box<ValueView>>),
    Array(Seq<ValueView>),
    Struct(Seq<(Seq<char>, ValueView)>),
    Unit,
}

pub open spec fn value_view(v: ShellValue) -> ValueView
    decreases v,
{
    match v {
        ShellValue::Int(n) => ValueView::Int(n),
        ShellValue::Float(b) => ValueView::Float(b),
        ShellValue::Bool(b) => ValueView::Bool(b),
        ShellValue::Str(s) => ValueView::Str(s@),
        ShellValue::Opt(None) => ValueView::Opt(None),
        ShellValue::Opt(Some(x)) => ValueView::Opt(Some(Box::new(value_view(*x)))),
        ShellValue::Array(items) => ValueView::Array(values_view(items@)),
        ShellValue::Struct(fields) => ValueView::Struct(fields_view(fields@)),
        ShellValue::Unit => ValueView::Unit,
    }
}

pub open spec fn values_view(s: Seq<ShellValue>) -> Seq<ValueView>
    decreases s,
{
    Seq::new(
        s.len(),
        |i: int|
            if 0 <= i < s.len() {
                value_view(s[i])
            } else {
                ValueView::Unit
            },
    )
}

pub open spec fn fields_view(s: Seq<(String, ShellValue)>) -> Seq<(Seq<char>, ValueView)>
    decreases s,
{
    Seq::new(
        s.len(),
        |i: int|
            if 0 <= i < s.len() {
                (s[i].0@, value_view(s[i].1))
            } else {
                (Seq::empty(), ValueView::Unit)
            },
    )
}

impl View for ShellValue {
    type V = ValueView;

    open spec fn view(&self) -> ValueView {
        value_view(*self)
    }
}

/// A copy of a value.
pub fn copy_value(v: &ShellValue) -> (r: ShellValue)
    ensures
        r@ == v@,
    decreases v,
{
    match v {
        ShellValue::Int(n) => ShellValue::Int(*n),
        ShellValue::Float(b) => ShellValue::Float(*b),
        ShellValue::Bool(b) => ShellValue::Bool(*b),
        ShellValue::Str(s) => ShellValue::Str(s.clone()),
        ShellValue::Opt(None) => ShellValue::Opt(None),
        ShellValue::Opt(Some(x)) => ShellValue::Opt(Some(Box::new(copy_value(x)))),
        ShellValue::Array(items) => ShellValue::Array(copy_values(items)),
        ShellValue::Struct(fields) => ShellValue::Struct(copy_fields(fields)),
        ShellValue::Unit => ShellValue::Unit,
    }
}

/// A copy of a list of values.
pub fn copy_values(items: &Vec<ShellValue>) -> (r: Vec<ShellValue>)
    ensures
        values_view(r@) == values_view(items@),
    decreases items,
{
    let mut out: Vec<ShellValue> = Vec::new();
    for i in 0..items.len()
        invariant
            out@.len() == i,
            forall|j: int| 0 <= j < i ==> value_view(#[trigger] out@[j]) == value_view(items@[j]),
    {
        assert(decreases_to!(items => items@[i as int]));
        out.push(copy_value(&items[i]));
    }
    assert(values_view(out@) =~= values_view(items@));
    out
}

/// A copy of a list of named values.
pub fn copy_fields(fields: &Vec<(String, ShellValue)>) -> (r: Vec<(String, ShellValue)>)
    ensures
        fields_view(r@) == fields_view(fields@),
    decreases fields,
{
    let mut out: Vec<(String, ShellValue)> = Vec::new();
    for i in 0..fields.len()
        invariant
            out@.len() == i,
            forall|j: int|
                0 <= j < i ==> (#[trigger] out@[j]).0@ == fields@[j].0@ && value_view(out@[j].1)
                    == value_view(fields@[j].1),
    {
        assert(decreases_to!(fields => fields@[i as int]));
        assert(decreases_to!(fields@[i as int] => fields@[i as int].1));
        let c = copy_value(&fields[i].1);
        out.push((fields[i].0.clone(), c));
    }
    assert(fields_view(out@) =~= fields_view(fields@));
    out
}

// ---------------------------------------------------------------------------
// Reads
// ---------------------------------------------------------------------------
/// The boolean a value holds, `None` for any other value.
pub fn as_bool(v: &ShellValue) -> (r: Option<bool>)
    ensures
        r == match v@ {
            ValueView::Bool(b) => Some(b),
            _ => None::<bool>,
        },
{
    match v {
        ShellValue::Bool(b) => Some(*b),
        _ => None,
    }
}

/// The element of an array at an index; `None` out of bounds or for any
/// other value.
pub fn get_index(v: &ShellValue, idx: i64) -> (r: Option<ShellValue>)
    ensures
        match v@ {
            ValueView::Array(items) => if 0 <= idx < items.len() {
                r matches Some(x) && x@ == items[idx as int]
            } else {
                r is None
            },
            _ => r is None,
        },
{
    match v {
        ShellValue::Array(items) => {
            if idx >= 0 && (idx as u64) < (items.len() as u64) {
                let x = copy_value(&items[idx as usize]);
                proof {
                    assert(values_view(items@)[idx as int] == value_view(items@[idx as int]));
                }
                Some(x)
            } else {
                None
            }
        },
        _ => None,
    }
}

/// The index of the last field of this name.
pub open spec fn last_field(fields: Seq<(Seq<char>, ValueView)>, name: Seq<char>) -> Option<int>
    decreases fields.len(),
{
    if fields.len() == 0 {
        None
    } else if fields.last().0 == name {
        Some(fields.len() - 1)
    } else {
        last_field(fields.drop_last(), name)
    }
}

proof fn lemma_last_field(fields: Seq<(Seq<char>, ValueView)>, name: Seq<char>, i: int)
    requires
        -1 <= i < fields.len(),
        i >= 0 ==> fields[i].0 == name,
        forall|j: int| i < j < fields.len() ==> (#[trigger] fields[j]).0 != name,
    ensures
        last_field(fields, name) == (if i >= 0 { Some(i) } else { None::<int> }),
    decreases fields.len(),
{
    if fields.len() > 0 && i < fields.len() - 1 {
        lemma_last_field(fields.drop_last(), name, i);
    }
}

/// The value of a struct's field (the last entry of the name); `None` when
/// there is no such field or the value is not a struct.
pub fn get_field(v: &ShellValue, name: &str) -> (r: Option<ShellValue>)
    ensures
        match v@ {
            ValueView::Struct(fields) => match last_field(fields, name@) {
                Some(i) => r matches Some(x) && x@ == fields[i].1,
                None => r is None,
            },
            _ => r is None,
        },
{
    match v {
        ShellValue::Struct(fields) => {
            let ghost fv = fields_view(fields@);
            assert(v@ == ValueView::Struct(fv));
            let mut i = fields.len();
            while i > 0
                invariant
                    i <= fields@.len(),
                    fv == fields_view(fields@),
                    v@ == ValueView::Struct(fv),
                    forall|j: int| i <= j < fields@.len() ==> (#[trigger] fv[j]).0 != name@,
                decreases i,
            {
                assert(fv[i - 1] == (fields@[i - 1].0@, value_view(fields@[i - 1].1)));
                if str_eq(fields[i - 1].0.as_str(), name) {
                    proof {
                        lemma_last_field(fv, name@, i - 1);
                    }
                    return Some(copy_value(&fields[i - 1].1));
                }
                i = i - 1;
            }
            proof {
                lemma_last_field(fv, name@, -1);
            }
            None
        },
        _ => None,
    }
}

// ---------------------------------------------------------------------------
// Match patterns
// ---------------------------------------------------------------------------
pub open spec fn is_nan_bits(x: u64) -> bool {
    (x & 0x7ff0_0000_0000_0000u64) == 0x7ff0_0000_0000_0000u64 && (x & 0x000f_ffff_ffff_ffffu64) != 0
}

/// IEEE-754 equality of two binary64 values given by their bits: no NaN
/// equals anything, and the two zeros are equal.
pub open spec fn float_eq(a: u64, b: u64) -> bool {
    !is_nan_bits(a) && !is_nan_bits(b) && (a == b || ((a | b) & 0x7fff_ffff_ffff_ffffu64) == 0)
}

pub(crate) fn float_eq_exec(a: u64, b: u64) -> (r: bool)
    ensures
        r == float_eq(a, b),
{
    let a_nan = (a & 0x7ff0_0000_0000_0000u64) == 0x7ff0_0000_0000_0000u64 && (a & 0x000f_ffff_ffff_ffffu64) != 0;
    let b_nan = (b & 0x7ff0_0000_0000_0000u64) == 0x7ff0_0000_0000_0000u64 && (b & 0x000f_ffff_ffff_ffffu64) != 0;
    !a_nan && !b_nan && (a == b || ((a | b) & 0x7fff_ffff_ffff_ffffu64) == 0)
}

/// Whether a literal pattern matches a value: integers, floats (as floats
/// compare), texts and booleans of the same kind, and a character against
/// its code as an integer.
pub open spec fn literal_matches(lit: Literal, v: ValueView) -> bool {
    match (lit, v) {
        (Literal::Int(a), ValueView::Int(b)) => a == b,
        (Literal::Float(a), ValueView::Float(b)) => float_eq(a, b),
        (Literal::String(a), ValueView::Str(b)) => a@ == b,
        (Literal::Bool(a), ValueView::Bool(b)) => a == b,
        (Literal::Char(a), ValueView::Int(b)) => a as int == b as int,
        _ => false,
    }
}

/// The bindings that a pattern makes of a value, `None` when it does not
/// match: a name binds the value (`_` binds nothing), `Some(name)` binds
/// the value inside an option, and enum patterns match no shell value.
pub open spec fn pattern_bindings(p: Pattern, v: ValueView) -> Option<Seq<(Seq<char>, ValueView)>> {
    match p {
        Pattern::Bool(b) => if v == ValueView::Bool(b) {
            Some(Seq::empty())
        } else {
            None
        },
        Pattern::Literal(lit) => if literal_matches(lit, v) {
            Some(Seq::empty())
        } else {
            None
        },
        Pattern::Ident(name) => if name@ == "_"@ {
            Some(Seq::empty())
        } else {
            Some(seq![(name@, v)])
        },
        Pattern::SomeOf(name) => match v {
            ValueView::Opt(Some(inner)) => if name@ == "_"@ {
                Some(Seq::empty())
            } else {
                Some(seq![(name@, *inner)])
            },
            _ => None,
        },
        Pattern::NoneValue => if v == ValueView::Opt(None) {
            Some(Seq::empty())
        } else {
            None
        },
        _ => None,
    }
}

/// Matches a pattern against a value and gives the bindings it makes; see `pattern_bindings`.
pub fn match_bindings(pattern: &Pattern, value: &ShellValue) -> (r: Option<Vec<(String, ShellValue)>>)
    ensures
        match pattern_bindings(*pattern, value@) {
            Some(b) => r matches Some(v) && fields_view(v@) == b,
            None => r is None,
        },
{
    let mut bindings: Vec<(String, ShellValue)> = Vec::new();
    proof {
        assert(fields_view(bindings@) =~= Seq::<(Seq<char>, ValueView)>::empty());
    }
    match pattern {
        Pattern::Bool(b) => match value {
            ShellValue::Bool(v) => if *v == *b {
                Some(bindings)
            } else {
                None
            },
            _ => None,
        },
        Pattern::Literal(lit) => {
            let ok = match (lit, value) {
                (Literal::Int(a), ShellValue::Int(b)) => *a == *b,
                (Literal::Float(a), ShellValue::Float(b)) => float_eq_exec(*a, *b),
                (Literal::String(a), ShellValue::Str(b)) => str_eq(a.as_str(), b.as_str()),
                (Literal::Bool(a), ShellValue::Bool(b)) => *a == *b,
                (Literal::Char(a), ShellValue::Int(b)) => (*a as u32) as i64 == *b,
                _ => false,
            };
            if ok {
                Some(bindings)
            } else {
                None
            }
        },
        Pattern::Ident(name) => {
            if !str_eq(name.as_str(), "_") {
                bindings.push((name.clone(), copy_value(value)));
                proof {
                    assert(fields_view(bindings@) =~= seq![(name@, value@)]);
                }
            }
            Some(bindings)
        },
        Pattern::SomeOf(name) => match value {
            ShellValue::Opt(Some(inner)) => {
                if !str_eq(name.as_str(), "_") {
                    bindings.push((name.clone(), copy_value(inner)));
                    proof {
                        assert(fields_view(bindings@) =~= seq![(name@, value_view(**inner))]);
                    }
                }
                Some(bindings)
            },
            _ => None,
        },
        Pattern::NoneValue => match value {
            ShellValue::Opt(None) => Some(bindings),
            _ => None,
        },
        _ => None,
    }
}

// ---------------------------------------------------------------------------
// Unary operators
// ---------------------------------------------------------------------------
/// Why a unary operator has no value.
#[derive(Debug, Clone, Copy, PartialEq, Eq, Structural)]
pub enum UnaryError {
    /// Negating something other than a number.
    CannotNegate,
    /// Negating the least `i64`, which has no negation.
    Overflow,
    /// `!` of something other than a boolean.
    NotBool,
}

/// The value of a unary operator: negation of an integer, or of a float
/// (its sign bit flipped, as IEEE-754 negation does), and `!` of a boolean.
pub open spec fn unary_spec(op: UnaryOp, v: ValueView) -> Result<ValueView, UnaryError> {
    match op {
        UnaryOp::Neg => match v {
            ValueView::Int(n) => if n == i64::MIN {
                Err(UnaryError::Overflow)
            } else {
                Ok(ValueView::Int((-n) as i64))
            },
            ValueView::Float(b) => Ok(ValueView::Float(b ^ 0x8000_0000_0000_0000u64)),
            _ => Err(UnaryError::CannotNegate),
        },
        UnaryOp::Not => match v {
            ValueView::Bool(b) => Ok(ValueView::Bool(!b)),
            _ => Err(UnaryError::NotBool),
        },
    }
}

/// Applies a unary operator to a value; see
/// `unary_spec`.
pub fn eval_unary(op: UnaryOp, val: ShellValue) -> (r: Result<ShellValue, UnaryError>)
    ensures
        match unary_spec(op, val@) {
            Ok(v) => r matches Ok(x) && x@ == v,
            Err(e) => r == Err::<ShellValue, UnaryError>(e),
        },
{
    match op {
        UnaryOp::Neg => match val {
            ShellValue::Int(n) => if n == i64::MIN {
                Err(UnaryError::Overflow)
            } else {
                Ok(ShellValue::Int(-n))
            },
            ShellValue::Float(b) => Ok(ShellValue::Float(b ^ 0x8000_0000_0000_0000u64)),
            _ => Err(UnaryError::CannotNegate),
        },
        UnaryOp::Not => match val {
            ShellValue::Bool(b) => Ok(ShellValue::Bool(!b)),
            _ => Err(UnaryError::NotBool),
        },
    }
}


// ---------------------------------------------------------------------------
// Fields of structs
// ---------------------------------------------------------------------------
/// The index of the last field named `name`.
pub fn find_field(fields: &Vec<(String, ShellValue)>, name: &str) -> (r: Option<usize>)
    ensures
        match r {
            Some(j) => j < fields@.len() && last_field(fields_view(fields@), name@) == Some(j as int),
            None => last_field(fields_view(fields@), name@) is None,
        },
{
    let ghost fv = fields_view(fields@);
    let mut i = fields.len();
    while i > 0
        invariant
            i <= fields@.len(),
            fv == fields_view(fields@),
            forall|j: int| i <= j < fields@.len() ==> (#[trigger] fv[j]).0 != name@,
        decreases i,
    {
        assert(fv[i - 1] == (fields@[i - 1].0@, value_view(fields@[i - 1].1)));
        if str_eq(fields[i - 1].0.as_str(), name) {
            proof {
                lemma_last_field(fv, name@, i - 1);
            }
            return Some(i - 1);
        }
        i = i - 1;
    }
    proof {
        lemma_last_field(fv, name@, -1);
    }
    None
}

/// Sets a field: replaces the last entry of the name, or adds one at the end.
pub open spec fn seq_insert(fields: Seq<(Seq<char>, ValueView)>, name: Seq<char>, v: ValueView) -> Seq<(Seq<char>, ValueView)> {
    match last_field(fields, name) {
        Some(i) => fields.update(i, (name, v)),
        None => fields.push((name, v)),
    }
}

/// Sets a field of a list of named values; see `seq_insert`.
pub fn field_insert(fields: &mut Vec<(String, ShellValue)>, name: String, v: ShellValue)
    ensures
        fields_view(final(fields)@) == seq_insert(fields_view(old(fields)@), name@, v@),
{
    let ghost before = fields_view(fields@);
    let ghost nv = v@;
    match find_field(fields, name.as_str()) {
        Some(i) => {
            let ghost n = name@;
            fields.set(i, (name, v));
            proof {
                assert(fields_view(fields@) =~= before.update(i as int, (n, nv)));
            }
        },
        None => {
            let ghost n = name@;
            fields.push((name, v));
            proof {
                assert(fields_view(fields@) =~= before.push((n, nv)));
            }
        },
    }
}

// ---------------------------------------------------------------------------
// Equality
// ---------------------------------------------------------------------------
/// Equality of values as `==` on shell values decides it: floats by
/// IEEE-754 equality, arrays element by element, options by their
/// contents, and structs by their fields whatever their order.
pub open spec fn value_eq(a: ValueView, b: ValueView) -> bool
    decreases a, 0int,
{
    match a {
        ValueView::Int(x) => b == ValueView::Int(x),
        ValueView::Float(x) => match b {
            ValueView::Float(y) => float_eq(x, y),
            _ => false,
        },
        ValueView::Bool(x) => b == ValueView::Bool(x),
        ValueView::Str(x) => b == ValueView::Str(x),
        ValueView::Unit => b == ValueView::Unit,
        ValueView::Opt(None) => b == ValueView::Opt(None),
        ValueView::Opt(Some(x)) => match b {
            ValueView::Opt(Some(y)) => value_eq(*x, *y),
            _ => false,
        },
        ValueView::Array(xs) => match b {
            ValueView::Array(ys) => xs.len() == ys.len() && items_eq(xs, ys, 0),
            _ => false,
        },
        ValueView::Struct(xs) => match b {
            ValueView::Struct(ys) => xs.len() == ys.len() && fields_eq(xs, ys, 0),
            _ => false,
        },
    }
}

/// The elements from `i` on are equal.
pub open spec fn items_eq(xs: Seq<ValueView>, ys: Seq<ValueView>, i: int) -> bool
    decreases xs, xs.len() - i,
{
    if 0 <= i < xs.len() {
        value_eq(xs[i], ys[i]) && items_eq(xs, ys, i + 1)
    } else {
        true
    }
}

/// Each field from `i` on equals the field of that name in `ys`.
pub open spec fn fields_eq(xs: Seq<(Seq<char>, ValueView)>, ys: Seq<(Seq<char>, ValueView)>, i: int) -> bool
    decreases xs, xs.len() - i,
{
    if 0 <= i < xs.len() {
        match last_field(ys, xs[i].0) {
            Some(j) => {
                proof {
                    assert(decreases_to!(xs => xs[i]));
                }
                value_eq(xs[i].1, ys[j].1) && fields_eq(xs, ys, i + 1)
            },
            None => false,
        }
    } else {
        true
    }
}

/// Whether two values are equal; see `value_eq`.
pub fn values_equal(a: &ShellValue, b: &ShellValue) -> (r: bool)
    ensures
        r == value_eq(a@, b@),
    decreases a,
{
    match a {
        ShellValue::Int(x) => match b {
            ShellValue::Int(y) => *x == *y,
            _ => false,
        },
        ShellValue::Float(x) => match b {
            ShellValue::Float(y) => float_eq_exec(*x, *y),
            _ => false,
        },
        ShellValue::Bool(x) => match b {
            ShellValue::Bool(y) => *x == *y,
            _ => false,
        },
        ShellValue::Str(x) => match b {
            ShellValue::Str(y) => str_eq(x.as_str(), y.as_str()),
            _ => false,
        },
        ShellValue::Unit => match b {
            ShellValue::Unit => true,
            _ => false,
        },
        ShellValue::Opt(None) => match b {
            ShellValue::Opt(None) => true,
            _ => false,
        },
        ShellValue::Opt(Some(x)) => match b {
            ShellValue::Opt(Some(y)) => values_equal(x, y),
            _ => false,
        },
        ShellValue::Array(xs) => match b {
            ShellValue::Array(ys) => {
                let ghost xv = values_view(xs@);
                let ghost yv = values_view(ys@);
                assert(a@ == ValueView::Array(xv));
                assert(b@ == ValueView::Array(yv));
                if xs.len() != ys.len() {
                    return false;
                }
                let mut i: usize = 0;
                while i < xs.len()
                    invariant
                        i <= xs@.len(),
                        xs@.len() == ys@.len(),
                        xv == values_view(xs@),
                        yv == values_view(ys@),
                        *a == ShellValue::Array(*xs),
                        value_eq(a@, b@) == items_eq(xv, yv, i as int),
                    decreases xs@.len() - i,
                {
                    assert(decreases_to!(a => xs@[i as int]));
                    assert(xv[i as int] == value_view(xs@[i as int]));
                    assert(yv[i as int] == value_view(ys@[i as int]));
                    if !values_equal(&xs[i], &ys[i]) {
                        return false;
                    }
                    i = i + 1;
                }
                true
            },
            _ => false,
        },
        ShellValue::Struct(xs) => match b {
            ShellValue::Struct(ys) => {
                let ghost xv = fields_view(xs@);
                let ghost yv = fields_view(ys@);
                assert(a@ == ValueView::Struct(xv));
                assert(b@ == ValueView::Struct(yv));
                if xs.len() != ys.len() {
                    return false;
                }
                let mut i: usize = 0;
                while i < xs.len()
                    invariant
                        i <= xs@.len(),
                        xs@.len() == ys@.len(),
                        xv == fields_view(xs@),
                        yv == fields_view(ys@),
                        *a == ShellValue::Struct(*xs),
                        value_eq(a@, b@) == fields_eq(xv, yv, i as int),
                    decreases xs@.len() - i,
                {
                    assert(decreases_to!(a => xs@[i as int].1)) by {
                        assert(decreases_to!(xs => xs@[i as int]));
                    }
                    assert(xv[i as int] == (xs@[i as int].0@, value_view(xs@[i as int].1)));
                    match find_field(ys, xs[i].0.as_str()) {
                        None => {
                            return false;
                        },
                        Some(j) => {
                            assert(yv[j as int] == (ys@[j as int].0@, value_view(ys@[j as int].1)));
                            if !values_equal(&xs[i].1, &ys[j].1) {
                                return false;
                            }
                        },
                    }
                    i = i + 1;
                }
                true
            },
            _ => false,
        },
    }
}

} // verus!
