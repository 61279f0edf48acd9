//! The arguments of a run's first message, read from the text given on the
//! command line by the types of the entry handler's parameters.
use vstd::prelude::*;
use crate::assoc::{assoc_get, table_map};
use crate::ast::{Param, Type};
use crate::shell_runtime::ShellValue;
use crate::shell_values::{ValueView, field_insert, fields_view, seq_insert};
use crate::text::{chars_of, ends_with, ends_with_exec, slice_chars, starts_with, starts_with_exec, string_from_chars, str_eq, trim, trim_exec};

verus! {

/// Why an entry argument cannot be read.
#[derive(Debug)]
pub enum EntryArgError {
    /// An argument that names no parameter of the entry handler.
    Unknown(String),
    /// A parameter without an argument.
    Missing(String),
    /// Text that is not an `i64`.
    NotAnInteger(String),
    /// Text other than `true` and `false`.
    NotABool(String),
    /// Text other than `None` and `Some(..)`.
    NotAnOption(String),
    /// A type that entry arguments cannot have.
    Unsupported,
    /// The float that this text denotes is needed (reading a float is left to
    /// the caller, who reads it again with the float added).
    NeedFloat(String),
}

pub ghost enum EntryArgErrorView {
    Unknown(Seq<char>),
    Missing(Seq<char>),
    NotAnInteger(Seq<char>),
    NotABool(Seq<char>),
    NotAnOption(Seq<char>),
    Unsupported,
    NeedFloat(Seq<char>),
}

impl View for EntryArgError {
    type V = EntryArgErrorView;

    open spec fn view(&self) -> EntryArgErrorView {
        match *self {
            EntryArgError::Unknown(s) => EntryArgErrorView::Unknown(s@),
            EntryArgError::Missing(s) => EntryArgErrorView::Missing(s@),
            EntryArgError::NotAnInteger(s) => EntryArgErrorView::NotAnInteger(s@),
            EntryArgError::NotABool(s) => EntryArgErrorView::NotABool(s@),
            EntryArgError::NotAnOption(s) => EntryArgErrorView::NotAnOption(s@),
            EntryArgError::Unsupported => EntryArgErrorView::Unsupported,
            EntryArgError::NeedFloat(s) => EntryArgErrorView::NeedFloat(s@),
        }
    }
}

pub open spec fn is_digit(c: char) -> bool {
    '0' <= c && c <= '9'
}

pub open spec fn all_digits(s: Seq<char>) -> bool {
    forall|i: int| 0 <= i < s.len() ==> is_digit(#[trigger] s[i])
}

/// The number that a string of decimal digits denotes.
pub open spec fn digits_value(s: Seq<char>) -> int
    decreases s.len(),
{
    if s.len() == 0 {
        0
    } else {
        digits_value(s.drop_last()) * 10 + (s.last() as int - '0' as int)
    }
}

/// The `i64` that a text denotes as Rust reads one: an optional sign, then
/// one or more decimal digits, and a value in range.
pub open spec fn int_text(s: Seq<char>) -> Option<i64> {
    let signed = s.len() > 0 && (s[0] == '-' || s[0] == '+');
    let body = if signed { s.drop_first() } else { s };
    let v = if s.len() > 0 && s[0] == '-' { -digits_value(body) } else { digits_value(body) };
    if body.len() == 0 || !all_digits(body) || v < i64::MIN || v > i64::MAX {
        None
    } else {
        Some(v as i64)
    }
}

proof fn lemma_digits_prefix(s: Seq<char>, k: int)
    requires
        all_digits(s),
        0 <= k <= s.len(),
    ensures
        0 <= digits_value(s.take(k)) <= digits_value(s),
    decreases s.len(),
{
    if s.len() > 0 {
        if k < s.len() {
            assert(s.drop_last().take(k) =~= s.take(k));
            assert(all_digits(s.drop_last()));
            lemma_digits_prefix(s.drop_last(), k);
            lemma_digits_prefix(s.drop_last(), s.len() - 1);
            assert(s.drop_last().take(s.len() - 1) =~= s.drop_last());
        } else {
            assert(s.take(k) =~= s);
            assert(s.drop_last().take(s.len() - 1) =~= s.drop_last());
            assert(all_digits(s.drop_last()));
            lemma_digits_prefix(s.drop_last(), s.len() - 1);
        }
    }
}

/// Reads an `i64`; see `int_text`.
pub fn parse_int(s: &[char]) -> (r: Option<i64>)
    ensures
        r == int_text(s@),
{
    let n = s.len();
    if n == 0 {
        return None;
    }
    let start: usize = if s[0] == '-' || s[0] == '+' {
        1
    } else {
        0
    };
    let ghost body = s@.subrange(start as int, n as int);
    assert(start == 1 ==> body =~= s@.drop_first());
    assert(start == 0 ==> body =~= s@);
    if start >= n {
        return None;
    }
    let mut acc: i128 = 0;
    let mut i: usize = start;
    while i < n
        invariant
            start <= i <= n,
            n == s@.len(),
            body == s@.subrange(start as int, n as int),
            body.take(i - start) == s@.subrange(start as int, i as int),
            start <= 1,
            start == 1 <==> (s@[0] == '-' || s@[0] == '+'),
            body == (if s@[0] == '-' || s@[0] == '+' { s@.drop_first() } else { s@ }),
            all_digits(s@.subrange(start as int, i as int)),
            acc == digits_value(s@.subrange(start as int, i as int)),
            0 <= acc <= 9223372036854775808,
        decreases n - i,
    {
        assert(body.take(i - start) =~= s@.subrange(start as int, i as int));
        let c = s[i];
        if !('0' <= c && c <= '9') {
            assert(body[i - start] == c);
            assert(!is_digit(body[i - start]));
            return None;
        }
        let ghost next = s@.subrange(start as int, i + 1);
        assert(next.drop_last() =~= s@.subrange(start as int, i as int));
        assert(all_digits(next));
        let d = ((c as u32) - ('0' as u32)) as i128;
        acc = acc * 10 + d;
        if acc > 9223372036854775808 {
            proof {
                if all_digits(body) {
                    assert(body.take(i + 1 - start) =~= next);
                    lemma_digits_prefix(body, i + 1 - start);
                    assert(digits_value(body) > 9223372036854775808);
                }
            }
            return None;
        }
        i = i + 1;
        assert(body.take(i - start) =~= s@.subrange(start as int, i as int));
    }
    assert(s@.subrange(start as int, n as int) =~= body);
    let v: i128 = if s[0] == '-' {
        -acc
    } else {
        acc
    };
    if v < -9223372036854775808 || v > 9223372036854775807 {
        None
    } else {
        Some(v as i64)
    }
}

/// The value of an entry argument of type `ty` written as `text`: integers
/// as `int_text` reads them, `true` and `false`, any text, `None` and
/// `Some(..)` around a value (its text trimmed); floats are looked up in
/// `floats`, and asked for where they are not there.
pub open spec fn entry_value(ty: Type, text: Seq<char>, floats: Map<Seq<char>, u64>) -> Result<ValueView, EntryArgErrorView>
    decreases ty,
{
    match ty {
        Type::I32 | Type::I64 => match int_text(text) {
            Some(n) => Ok(ValueView::Int(n)),
            None => Err(EntryArgErrorView::NotAnInteger(text)),
        },
        Type::Bool => if text == "true"@ {
            Ok(ValueView::Bool(true))
        } else if text == "false"@ {
            Ok(ValueView::Bool(false))
        } else {
            Err(EntryArgErrorView::NotABool(text))
        },
        Type::F32 | Type::F64 => if floats.contains_key(text) {
            Ok(ValueView::Float(floats[text]))
        } else {
            Err(EntryArgErrorView::NeedFloat(text))
        },
        Type::Str => Ok(ValueView::Str(text)),
        Type::Option(inner) => if text == "None"@ {
            Ok(ValueView::Opt(None))
        } else if starts_with(text, "Some("@) && ends_with(text.subrange(5, text.len() as int), ")"@) {
            match entry_value(*inner, trim(text.subrange(5, text.len() - 1)), floats) {
                Ok(v) => Ok(ValueView::Opt(Some(Box::new(v)))),
                Err(e) => Err(e),
            }
        } else {
            Err(EntryArgErrorView::NotAnOption(text))
        },
        _ => Err(EntryArgErrorView::Unsupported),
    }
}

/// Reads an entry argument; see `entry_value`.
pub fn entry_value_exec(ty: &Type, text: &[char], floats: &Vec<(String, u64)>) -> (r: Result<ShellValue, EntryArgError>)
    ensures
        match entry_value(*ty, text@, table_map(floats@)) {
            Ok(v) => r matches Ok(x) && x@ == v,
            Err(e) => r matches Err(x) && x@ == e,
        },
    decreases ty,
{
    match ty {
        Type::I32 | Type::I64 => match parse_int(text) {
            Some(n) => Ok(ShellValue::Int(n)),
            None => Err(EntryArgError::NotAnInteger(string_from_chars(text))),
        },
        Type::Bool => {
            let t = string_from_chars(text);
            if str_eq(t.as_str(), "true") {
                Ok(ShellValue::Bool(true))
            } else if str_eq(t.as_str(), "false") {
                Ok(ShellValue::Bool(false))
            } else {
                Err(EntryArgError::NotABool(t))
            }
        },
        Type::F32 | Type::F64 => {
            let t = string_from_chars(text);
            match assoc_get(floats, t.as_str()) {
                Some(b) => Ok(ShellValue::Float(*b)),
                None => Err(EntryArgError::NeedFloat(t)),
            }
        },
        Type::Str => Ok(ShellValue::Str(string_from_chars(text))),
        Type::Option(inner) => {
            let t = string_from_chars(text);
            if str_eq(t.as_str(), "None") {
                return Ok(ShellValue::Opt(None));
            }
            let some = chars_of("Some(");
            let close = chars_of(")");
            proof {
                reveal_strlit("Some(");
                reveal_strlit(")");
            }
            if starts_with_exec(text, some.as_slice()) {
                let rest = slice_chars(text, 5, text.len());
                if ends_with_exec(rest.as_slice(), close.as_slice()) {
                    let body = slice_chars(text, 5, text.len() - 1);
                    let inner_text = trim_exec(body.as_slice());
                    return match entry_value_exec(inner, inner_text.as_slice(), floats) {
                        Ok(v) => Ok(ShellValue::Opt(Some(Box::new(v)))),
                        Err(e) => Err(e),
                    };
                }
            }
            Err(EntryArgError::NotAnOption(t))
        },
        _ => Err(EntryArgError::Unsupported),
    }
}

/// The first argument, from `i` on, whose name is no parameter's.
pub open spec fn first_unknown(params: Seq<Param>, raw: Seq<(String, String)>, i: int) -> Option<int>
    decreases raw.len() - i,
{
    if i < 0 || i >= raw.len() {
        None
    } else if !(exists|k: int| 0 <= k < params.len() && (#[trigger] params[k]).name@ == raw[i].0@) {
        Some(i)
    } else {
        first_unknown(params, raw, i + 1)
    }
}

/// The arguments of the entry handler's parameters from `i` on, set into
/// `acc`: each read from the last argument of its name.
pub open spec fn entry_args_from(
    params: Seq<Param>,
    raw: Map<Seq<char>, String>,
    floats: Map<Seq<char>, u64>,
    i: int,
    acc: Seq<(Seq<char>, ValueView)>,
) -> Result<Seq<(Seq<char>, ValueView)>, EntryArgErrorView>
    decreases params.len() - i,
{
    if i < 0 || i >= params.len() {
        Ok(acc)
    } else if !raw.contains_key(params[i].name@) {
        Err(EntryArgErrorView::Missing(params[i].name@))
    } else {
        match entry_value(params[i].ty, raw[params[i].name@]@, floats) {
            Err(e) => Err(e),
            Ok(v) => entry_args_from(params, raw, floats, i + 1, seq_insert(acc, params[i].name@, v)),
        }
    }
}

/// The arguments of a run's first message: an argument that names no
/// parameter fails (the first such); then each parameter, in order, takes
/// the value of the last argument of its name (see `entry_value`), and one
/// without an argument fails.
pub open spec fn entry_args(params: Seq<Param>, raw: Seq<(String, String)>, floats: Map<Seq<char>, u64>) -> Result<Seq<(Seq<char>, ValueView)>, EntryArgErrorView> {
    match first_unknown(params, raw, 0) {
        Some(i) => Err(EntryArgErrorView::Unknown(raw[i].0@)),
        None => entry_args_from(params, table_map(raw), floats, 0, Seq::empty()),
    }
}

fn is_param(params: &Vec<Param>, name: &str) -> (r: bool)
    ensures
        r == exists|k: int| 0 <= k < params@.len() && (#[trigger] params@[k]).name@ == name@,
{
    for k in 0..params.len()
        invariant
            forall|j: int| 0 <= j < k ==> (#[trigger] params@[j]).name@ != name@,
    {
        if str_eq(params[k].name.as_str(), name) {
            return true;
        }
    }
    false
}

/// Reads the arguments of a run's first message; see `entry_args`.
pub fn entry_args_exec(params: &Vec<Param>, raw: &Vec<(String, String)>, floats: &Vec<(String, u64)>) -> (r: Result<Vec<(String, ShellValue)>, EntryArgError>)
    ensures
        match entry_args(params@, raw@, table_map(floats@)) {
            Ok(a) => r matches Ok(x) && fields_view(x@) == a,
            Err(e) => r matches Err(x) && x@ == e,
        },
{
    for i in 0..raw.len()
        invariant
            first_unknown(params@, raw@, 0) == first_unknown(params@, raw@, i as int),
    {
        if !is_param(params, raw[i].0.as_str()) {
            return Err(EntryArgError::Unknown(raw[i].0.clone()));
        }
    }
    let ghost rm = table_map(raw@);
    let ghost fm = table_map(floats@);
    let mut acc: Vec<(String, ShellValue)> = Vec::new();
    assert(fields_view(acc@) =~= Seq::<(Seq<char>, ValueView)>::empty());
    for i in 0..params.len()
        invariant
            first_unknown(params@, raw@, 0) is None,
            rm == table_map(raw@),
            fm == table_map(floats@),
            entry_args(params@, raw@, fm) == entry_args_from(params@, rm, fm, i as int, fields_view(acc@)),
    {
        let text = match assoc_get(raw, params[i].name.as_str()) {
            None => {
                return Err(EntryArgError::Missing(params[i].name.clone()));
            },
            Some(t) => t,
        };
        let cs = chars_of(text.as_str());
        let v = match entry_value_exec(&params[i].ty, cs.as_slice(), floats) {
            Err(e) => {
                return Err(e);
            },
            Ok(v) => v,
        };
        field_insert(&mut acc, params[i].name.clone(), v);
    }
    Ok(acc)
}

} // verus!
